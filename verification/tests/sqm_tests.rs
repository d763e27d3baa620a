use kb_port::form::{Field, FieldType, ParseResult};
use kb_port::sqm::{read_sqm_config, sqm_keys, sqm_set_args, uci_value, SqmForm, SQM_FIELD_COUNT};

#[test]
fn uci_value_trims_or_defaults() {
    assert_eq!(uci_value(Some("cake\n"), "x"), "cake");
    assert_eq!(uci_value(Some("  \n"), "x"), "x");
    assert_eq!(uci_value(Some(""), ""), "");
    assert_eq!(uci_value(None, "5"), "5");
}

#[test]
fn keys_and_defaults() {
    let k = sqm_keys();
    assert_eq!(k.len(), SQM_FIELD_COUNT);
    assert_eq!(k[0], ("sqm.@sqm[0].enabled".to_string(), String::new()));
    assert_eq!(k[4], ("sqm.@sqm[0].verbosity".to_string(), "5".to_string()));
    assert_eq!(k[26], ("sqm.@sqm[0].linklayer_adaptation_mechanism".to_string(), "default".to_string()));
}

#[test]
fn config_from_missing_values_is_defaults() {
    let c = read_sqm_config(&vec![None; SQM_FIELD_COUNT]);
    assert_eq!(c.enabled, "");
    assert_eq!(c.verbosity, "5");
    assert_eq!(c.qdisc, "cake");
    assert_eq!(c.script, "piece_of_cake.qos");
    assert_eq!(c.qdisc_advanced, "false");
    assert_eq!(c.ingress_ecn, "ECN");
    assert_eq!(c.egress_ecn, "NOECN");
    assert_eq!(c.linklayer, "none");
    assert_eq!(c.overhead, "0");
    assert_eq!(c.tcMTU, "2047");
    assert_eq!(c.tcTSIZE, "128");
    assert_eq!(c.tcMPU, "0");
    assert_eq!(c.linklayer_adaptation_mechanism, "default");
}

#[test]
fn config_from_uci_output() {
    let mut out = vec![None; SQM_FIELD_COUNT];
    out[0] = Some("1\n".to_string());
    out[5] = Some("fq_codel\n".to_string());
    out[4] = Some("\n".to_string());
    let c = read_sqm_config(&out);
    assert_eq!(c.enabled, "1");
    assert_eq!(c.qdisc, "fq_codel");
    assert_eq!(c.verbosity, "5");
}

fn form() -> SqmForm {
    SqmForm {
        enabled: Some("on".to_string()),
        download: "85000".to_string(),
        upload: " 10000 ".to_string(),
        debug_logging: None,
        verbosity: "5".to_string(),
        qdisc: "cake".to_string(),
        script: "piece_of_cake.qos".to_string(),
        qdisc_advanced: None,
        use_mq: None,
        squash_dscp: "1".to_string(),
        squash_ingress: "1".to_string(),
        ingress_ecn: "ECN".to_string(),
        egress_ecn: "NOECN".to_string(),
        qdisc_really_really_advanced: None,
        ilimit: String::new(),
        elimit: String::new(),
        itarget: String::new(),
        etarget: String::new(),
        iqdisc_opts: String::new(),
        eqdisc_opts: String::new(),
        linklayer: "ethernet".to_string(),
        overhead: "34".to_string(),
        linklayer_advanced: Some("on".to_string()),
        tcMTU: "2047".to_string(),
        tcTSIZE: "128".to_string(),
        tcMPU: "0".to_string(),
        linklayer_adaptation_mechanism: "default".to_string(),
    }
}

#[test]
fn set_arguments_from_form() {
    let a = sqm_set_args(&form());
    assert_eq!(a.len(), SQM_FIELD_COUNT);
    assert_eq!(a[0], "sqm.@sqm[0].enabled=1");
    assert_eq!(a[1], "sqm.@sqm[0].download=85000");
    assert_eq!(a[2], "sqm.@sqm[0].upload= 10000 ");
    assert_eq!(a[3], "sqm.@sqm[0].debug_logging=0");
    assert_eq!(a[22], "sqm.@sqm[0].linklayer_advanced=1");
    assert_eq!(a[23], "sqm.@sqm[0].tcMTU=2047");
}

#[test]
fn written_values_read_back() {
    let args = sqm_set_args(&form());
    let keys = sqm_keys();
    let mut out = Vec::new();
    for (i, a) in args.iter().enumerate() {
        let (k, v) = a.split_once('=').unwrap();
        assert_eq!(k, keys[i].0);
        out.push(Some(format!("{}\n", v)));
    }
    let c = read_sqm_config(&out);
    assert_eq!(c.enabled, "1");
    assert_eq!(c.debug_logging, "0");
    assert_eq!(c.upload, "10000");
    assert_eq!(c.ilimit, "");
    assert_eq!(c.linklayer, "ethernet");
    assert_eq!(c.verbosity, "5");
}

#[test]
fn generated_reader_uses_the_same_keys() {
    let f = Field {
        tab: "general".to_string(),
        field_type: FieldType::Flag,
        name: "enabled".to_string(),
        label: String::new(),
        description: String::new(),
        datatype: String::new(),
        default: String::new(),
        options: Vec::new(),
        depends: Vec::new(),
    };
    let r = ParseResult {
        package_name: "sqm".to_string(),
        tabs: Vec::new(),
        fields: vec![f],
        warnings: Vec::new(),
        events: Vec::new(),
    };
    let code = kb_port::rustgen::generate_rust(&r);
    let key = &sqm_keys()[0].0;
    assert!(code.contains(&format!("uci_get(\"{}\"", key)));
    assert!(code.contains(&format!("uci_set(\"{}\"", key)));
}
