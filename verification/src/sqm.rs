//! The SQM (smart queue management) settings page: its config as read
//! from `uci`, the submitted form, and the `uci set` arguments written back.
use vstd::prelude::*;
use crate::text;
use crate::text::{chars_of, string_of, trim_chars};

verus! {

/// The number of SQM settings.
pub const SQM_FIELD_COUNT: usize = 27;

/// The SQM settings, each as the text `uci` holds.
#[allow(non_snake_case)]
#[derive(Debug)]
pub struct SqmConfig {
    pub enabled: String,
    pub download: String,
    pub upload: String,
    pub debug_logging: String,
    pub verbosity: String,
    pub qdisc: String,
    pub script: String,
    pub qdisc_advanced: String,
    pub use_mq: String,
    pub squash_dscp: String,
    pub squash_ingress: String,
    pub ingress_ecn: String,
    pub egress_ecn: String,
    pub qdisc_really_really_advanced: String,
    pub ilimit: String,
    pub elimit: String,
    pub itarget: String,
    pub etarget: String,
    pub iqdisc_opts: String,
    pub eqdisc_opts: String,
    pub linklayer: String,
    pub overhead: String,
    pub linklayer_advanced: String,
    pub tcMTU: String,
    pub tcTSIZE: String,
    pub tcMPU: String,
    pub linklayer_adaptation_mechanism: String,
}

/// The submitted settings form; a check box is present only when checked.
#[allow(non_snake_case)]
#[derive(Debug)]
pub struct SqmForm {
    pub enabled: Option<String>,
    pub download: String,
    pub upload: String,
    pub debug_logging: Option<String>,
    pub verbosity: String,
    pub qdisc: String,
    pub script: String,
    pub qdisc_advanced: Option<String>,
    pub use_mq: Option<String>,
    pub squash_dscp: String,
    pub squash_ingress: String,
    pub ingress_ecn: String,
    pub egress_ecn: String,
    pub qdisc_really_really_advanced: Option<String>,
    pub ilimit: String,
    pub elimit: String,
    pub itarget: String,
    pub etarget: String,
    pub iqdisc_opts: String,
    pub eqdisc_opts: String,
    pub linklayer: String,
    pub overhead: String,
    pub linklayer_advanced: Option<String>,
    pub tcMTU: String,
    pub tcTSIZE: String,
    pub tcMPU: String,
    pub linklayer_adaptation_mechanism: String,
}

/// The page template's data.
#[derive(Debug)]
pub struct SqmTemplate {
    pub config: SqmConfig,
}

/// The settings in order, by name.
pub open spec fn sqm_names() -> Seq<Seq<char>> {
    seq![
        "enabled"@,
        "download"@,
        "upload"@,
        "debug_logging"@,
        "verbosity"@,
        "qdisc"@,
        "script"@,
        "qdisc_advanced"@,
        "use_mq"@,
        "squash_dscp"@,
        "squash_ingress"@,
        "ingress_ecn"@,
        "egress_ecn"@,
        "qdisc_really_really_advanced"@,
        "ilimit"@,
        "elimit"@,
        "itarget"@,
        "etarget"@,
        "iqdisc_opts"@,
        "eqdisc_opts"@,
        "linklayer"@,
        "overhead"@,
        "linklayer_advanced"@,
        "tcMTU"@,
        "tcTSIZE"@,
        "tcMPU"@,
        "linklayer_adaptation_mechanism"@,
    ]
}

/// The defaults of the settings in order, used when `uci` has no value.
pub open spec fn sqm_defaults() -> Seq<Seq<char>> {
    seq![
        ""@,
        ""@,
        ""@,
        ""@,
        "5"@,
        "cake"@,
        "piece_of_cake.qos"@,
        "false"@,
        "false"@,
        "1"@,
        "1"@,
        "ECN"@,
        "NOECN"@,
        "false"@,
        ""@,
        ""@,
        ""@,
        ""@,
        ""@,
        ""@,
        "none"@,
        "0"@,
        ""@,
        "2047"@,
        "128"@,
        "0"@,
        "default"@,
    ]
}

/// Which settings are check boxes.
pub open spec fn sqm_flags() -> Seq<bool> {
    seq![
        true,
        false,
        false,
        true,
        false,
        false,
        false,
        true,
        true,
        false,
        false,
        false,
        false,
        true,
        false,
        false,
        false,
        false,
        false,
        false,
        false,
        false,
        true,
        false,
        false,
        false,
        false,
    ]
}

/// The `uci` key of the `i`-th setting.
pub open spec fn sqm_key(i: int) -> Seq<char> {
    "sqm.@sqm[0]."@ + sqm_names()[i]
}

/// The settings of a config in order.
#[allow(non_snake_case)]
pub open spec fn config_values(c: SqmConfig) -> Seq<Seq<char>> {
    seq![
        c.enabled@,
        c.download@,
        c.upload@,
        c.debug_logging@,
        c.verbosity@,
        c.qdisc@,
        c.script@,
        c.qdisc_advanced@,
        c.use_mq@,
        c.squash_dscp@,
        c.squash_ingress@,
        c.ingress_ecn@,
        c.egress_ecn@,
        c.qdisc_really_really_advanced@,
        c.ilimit@,
        c.elimit@,
        c.itarget@,
        c.etarget@,
        c.iqdisc_opts@,
        c.eqdisc_opts@,
        c.linklayer@,
        c.overhead@,
        c.linklayer_advanced@,
        c.tcMTU@,
        c.tcTSIZE@,
        c.tcMPU@,
        c.linklayer_adaptation_mechanism@,
    ]
}

/// The value a check box is written as.
pub open spec fn flag_value(b: Option<String>) -> Seq<char> {
    if b is Some {
        "1"@
    } else {
        "0"@
    }
}

/// The values a form writes, in order.
#[allow(non_snake_case)]
pub open spec fn form_values(f: SqmForm) -> Seq<Seq<char>> {
    seq![
        flag_value(f.enabled),
        f.download@,
        f.upload@,
        flag_value(f.debug_logging),
        f.verbosity@,
        f.qdisc@,
        f.script@,
        flag_value(f.qdisc_advanced),
        flag_value(f.use_mq),
        f.squash_dscp@,
        f.squash_ingress@,
        f.ingress_ecn@,
        f.egress_ecn@,
        flag_value(f.qdisc_really_really_advanced),
        f.ilimit@,
        f.elimit@,
        f.itarget@,
        f.etarget@,
        f.iqdisc_opts@,
        f.eqdisc_opts@,
        f.linklayer@,
        f.overhead@,
        flag_value(f.linklayer_advanced),
        f.tcMTU@,
        f.tcTSIZE@,
        f.tcMPU@,
        f.linklayer_adaptation_mechanism@,
    ]
}

/// The value of a setting from what `uci get` printed: the trimmed output, or
/// the default when the command could not run or printed nothing but blanks.
pub open spec fn uci_value_spec(output: Option<Seq<char>>, default: Seq<char>) -> Seq<char> {
    match output {
        Some(o) => if text::trim(o).len() > 0 {
            text::trim(o)
        } else {
            default
        },
        None => default,
    }
}

/// The value of a setting from the output of `uci get` (`None` when the
/// command could not run).
pub fn uci_value(output: Option<&str>, default: &str) -> (res: String)
    ensures
        res@ == uci_value_spec(
            match output {
                Some(o) => Some(o@),
                None => None,
            },
            default@,
        ),
{
    match output {
        Some(o) => {
            let t = trim_chars(&chars_of(o));
            if t.len() > 0 {
                string_of(&t)
            } else {
                String::from_str(default)
            }
        },
        None => String::from_str(default),
    }
}

pub open spec fn output_views(v: Seq<Option<String>>) -> Seq<Option<Seq<char>>> {
    v.map_values(
        |o: Option<String>|
            match o {
                Some(s) => Some(s@),
                None => None,
            },
    )
}

fn as_opt_str(o: &Option<String>) -> (res: Option<&str>)
    ensures
        match res {
            Some(s) => *o matches Some(t) && s@ == t@,
            None => o is None,
        },
{
    match o {
        Some(s) => Some(s.as_str()),
        None => None,
    }
}

fn key_and_default(name: &str, default: &str) -> (res: (String, String))
    ensures
        res.0@ == "sqm.@sqm[0]."@ + name@,
        res.1@ == default@,
{
    let mut k = String::from_str("sqm.@sqm[0].");
    k.append(name);
    (k, String::from_str(default))
}

/// The `uci` key and the default of each setting, in order.
pub fn sqm_keys() -> (res: Vec<(String, String)>)
    ensures
        res@.len() == SQM_FIELD_COUNT,
        forall|i: int|
            0 <= i < SQM_FIELD_COUNT ==> (#[trigger] res@[i]).0@ == sqm_key(i) && res@[i].1@
                == sqm_defaults()[i],
{
    let mut v: Vec<(String, String)> = Vec::new();
    v.push(key_and_default("enabled", ""));
    v.push(key_and_default("download", ""));
    v.push(key_and_default("upload", ""));
    v.push(key_and_default("debug_logging", ""));
    v.push(key_and_default("verbosity", "5"));
    v.push(key_and_default("qdisc", "cake"));
    v.push(key_and_default("script", "piece_of_cake.qos"));
    v.push(key_and_default("qdisc_advanced", "false"));
    v.push(key_and_default("use_mq", "false"));
    v.push(key_and_default("squash_dscp", "1"));
    v.push(key_and_default("squash_ingress", "1"));
    v.push(key_and_default("ingress_ecn", "ECN"));
    v.push(key_and_default("egress_ecn", "NOECN"));
    v.push(key_and_default("qdisc_really_really_advanced", "false"));
    v.push(key_and_default("ilimit", ""));
    v.push(key_and_default("elimit", ""));
    v.push(key_and_default("itarget", ""));
    v.push(key_and_default("etarget", ""));
    v.push(key_and_default("iqdisc_opts", ""));
    v.push(key_and_default("eqdisc_opts", ""));
    v.push(key_and_default("linklayer", "none"));
    v.push(key_and_default("overhead", "0"));
    v.push(key_and_default("linklayer_advanced", ""));
    v.push(key_and_default("tcMTU", "2047"));
    v.push(key_and_default("tcTSIZE", "128"));
    v.push(key_and_default("tcMPU", "0"));
    v.push(key_and_default("linklayer_adaptation_mechanism", "default"));
    v
}

/// The config from what `uci get` printed for each setting, in the order of
/// `sqm_keys` (`None` where the command could not run).
#[allow(non_snake_case)]
pub fn read_sqm_config(outputs: &Vec<Option<String>>) -> (res: SqmConfig)
    requires
        outputs@.len() == SQM_FIELD_COUNT,
    ensures
        config_values(res) == Seq::new(
            SQM_FIELD_COUNT as nat,
            |i: int| uci_value_spec(output_views(outputs@)[i], sqm_defaults()[i]),
        ),
{
    let res = SqmConfig {
        enabled: uci_value(as_opt_str(&outputs[0]), ""),
        download: uci_value(as_opt_str(&outputs[1]), ""),
        upload: uci_value(as_opt_str(&outputs[2]), ""),
        debug_logging: uci_value(as_opt_str(&outputs[3]), ""),
        verbosity: uci_value(as_opt_str(&outputs[4]), "5"),
        qdisc: uci_value(as_opt_str(&outputs[5]), "cake"),
        script: uci_value(as_opt_str(&outputs[6]), "piece_of_cake.qos"),
        qdisc_advanced: uci_value(as_opt_str(&outputs[7]), "false"),
        use_mq: uci_value(as_opt_str(&outputs[8]), "false"),
        squash_dscp: uci_value(as_opt_str(&outputs[9]), "1"),
        squash_ingress: uci_value(as_opt_str(&outputs[10]), "1"),
        ingress_ecn: uci_value(as_opt_str(&outputs[11]), "ECN"),
        egress_ecn: uci_value(as_opt_str(&outputs[12]), "NOECN"),
        qdisc_really_really_advanced: uci_value(as_opt_str(&outputs[13]), "false"),
        ilimit: uci_value(as_opt_str(&outputs[14]), ""),
        elimit: uci_value(as_opt_str(&outputs[15]), ""),
        itarget: uci_value(as_opt_str(&outputs[16]), ""),
        etarget: uci_value(as_opt_str(&outputs[17]), ""),
        iqdisc_opts: uci_value(as_opt_str(&outputs[18]), ""),
        eqdisc_opts: uci_value(as_opt_str(&outputs[19]), ""),
        linklayer: uci_value(as_opt_str(&outputs[20]), "none"),
        overhead: uci_value(as_opt_str(&outputs[21]), "0"),
        linklayer_advanced: uci_value(as_opt_str(&outputs[22]), ""),
        tcMTU: uci_value(as_opt_str(&outputs[23]), "2047"),
        tcTSIZE: uci_value(as_opt_str(&outputs[24]), "128"),
        tcMPU: uci_value(as_opt_str(&outputs[25]), "0"),
        linklayer_adaptation_mechanism: uci_value(as_opt_str(&outputs[26]), "default"),
    };
    assert(config_values(res) =~= Seq::new(
        SQM_FIELD_COUNT as nat,
        |i: int| uci_value_spec(output_views(outputs@)[i], sqm_defaults()[i]),
    ));
    res
}

fn set_arg(name: &str, value: &str) -> (res: String)
    ensures
        res@ == "sqm.@sqm[0]."@ + name@ + "="@ + value@,
{
    let mut a = String::from_str("sqm.@sqm[0].");
    a.append(name);
    a.append("=");
    a.append(value);
    a
}

fn flag_text(b: &Option<String>) -> (res: &'static str)
    ensures
        res@ == flag_value(*b),
{
    match b {
        Some(_) => "1",
        None => "0",
    }
}

/// The `key=value` argument of `uci set` for each setting, in order: a check
/// box is written as `1` or `0`.
#[allow(non_snake_case)]
pub fn sqm_set_args(form: &SqmForm) -> (res: Vec<String>)
    ensures
        text::views(res@) == Seq::new(
            SQM_FIELD_COUNT as nat,
            |i: int| sqm_key(i) + "="@ + form_values(*form)[i],
        ),
{
    let mut v: Vec<String> = Vec::new();
    v.push(set_arg("enabled", flag_text(&form.enabled)));
    v.push(set_arg("download", form.download.as_str()));
    v.push(set_arg("upload", form.upload.as_str()));
    v.push(set_arg("debug_logging", flag_text(&form.debug_logging)));
    v.push(set_arg("verbosity", form.verbosity.as_str()));
    v.push(set_arg("qdisc", form.qdisc.as_str()));
    v.push(set_arg("script", form.script.as_str()));
    v.push(set_arg("qdisc_advanced", flag_text(&form.qdisc_advanced)));
    v.push(set_arg("use_mq", flag_text(&form.use_mq)));
    v.push(set_arg("squash_dscp", form.squash_dscp.as_str()));
    v.push(set_arg("squash_ingress", form.squash_ingress.as_str()));
    v.push(set_arg("ingress_ecn", form.ingress_ecn.as_str()));
    v.push(set_arg("egress_ecn", form.egress_ecn.as_str()));
    v.push(set_arg("qdisc_really_really_advanced", flag_text(&form.qdisc_really_really_advanced)));
    v.push(set_arg("ilimit", form.ilimit.as_str()));
    v.push(set_arg("elimit", form.elimit.as_str()));
    v.push(set_arg("itarget", form.itarget.as_str()));
    v.push(set_arg("etarget", form.etarget.as_str()));
    v.push(set_arg("iqdisc_opts", form.iqdisc_opts.as_str()));
    v.push(set_arg("eqdisc_opts", form.eqdisc_opts.as_str()));
    v.push(set_arg("linklayer", form.linklayer.as_str()));
    v.push(set_arg("overhead", form.overhead.as_str()));
    v.push(set_arg("linklayer_advanced", flag_text(&form.linklayer_advanced)));
    v.push(set_arg("tcMTU", form.tcMTU.as_str()));
    v.push(set_arg("tcTSIZE", form.tcTSIZE.as_str()));
    v.push(set_arg("tcMPU", form.tcMPU.as_str()));
    v.push(set_arg("linklayer_adaptation_mechanism", form.linklayer_adaptation_mechanism.as_str()));
    assert(text::views(v@) =~= Seq::new(
        SQM_FIELD_COUNT as nat,
        |i: int| sqm_key(i) + "="@ + form_values(*form)[i],
    ));
    v
}


// ---------------------------------------------------------------------------
// Laws
// ---------------------------------------------------------------------------

/// Reading back what was written: when `uci get` prints the value that the
/// form wrote for a setting, followed by a line end, a check box reads back
/// exactly as written (`1` or `0`), and any other setting reads back as the
/// written value itself would (trimmed, or the default when blank).
pub proof fn lemma_read_back_written(form: SqmForm, i: int)
    requires
        0 <= i < SQM_FIELD_COUNT,
    ensures
        sqm_flags()[i] ==> uci_value_spec(
            Some(form_values(form)[i].push('\n')),
            sqm_defaults()[i],
        ) == form_values(form)[i],
        uci_value_spec(Some(form_values(form)[i].push('\n')), sqm_defaults()[i])
            == uci_value_spec(Some(form_values(form)[i]), sqm_defaults()[i]),
{
    let v = form_values(form)[i];
    text::lemma_trim_push_ws(v, '\n');
    if sqm_flags()[i] {
        reveal_strlit("1");
        reveal_strlit("0");
        assert(v == "1"@ || v == "0"@);
        assert(v.len() == 1 && !text::is_ws(v[0]));
        assert(text::strip_start(v, text::Pat::Ws) == v);
        assert(v.drop_last().len() == 0);
        assert(text::strip_end(v, text::Pat::Ws) == v);
    }
}


/// The SQM settings use exactly the `uci` keys that the module generator
/// gives the fields of a package named `sqm`.
pub proof fn lemma_keys_match_generator(i: int)
    requires
        0 <= i < SQM_FIELD_COUNT,
    ensures
        sqm_key(i) == crate::rustgen::uci_key("sqm"@, sqm_names()[i]),
{
    reveal_strlit("sqm.@sqm[0].");
    reveal_strlit("sqm");
    reveal_strlit(".@");
    reveal_strlit("[0].");
    assert("sqm.@sqm[0]."@ =~= "sqm"@ + ".@"@ + "sqm"@ + "[0]."@);
}


/// Each setting is written under its own key with its own form field: the
/// argument for `sqm.@sqm[0].<name>` is that key, `=`, and the form's `<name>`
/// (a check box as `1` when present, else `0`).
#[allow(non_snake_case)]
pub proof fn lemma_each_setting_written_from_its_field(f: SqmForm)
    ensures
        ({
            let args = Seq::new(
                SQM_FIELD_COUNT as nat,
                |i: int| sqm_key(i) + "="@ + form_values(f)[i],
            );
            &&& args.len() == SQM_FIELD_COUNT
            &&& args[0] == "sqm.@sqm[0]."@ + "enabled"@ + "="@ + (if f.enabled is Some { "1"@ } else { "0"@ })
            &&& args[1] == "sqm.@sqm[0]."@ + "download"@ + "="@ + f.download@
            &&& args[2] == "sqm.@sqm[0]."@ + "upload"@ + "="@ + f.upload@
            &&& args[3] == "sqm.@sqm[0]."@ + "debug_logging"@ + "="@ + (if f.debug_logging is Some { "1"@ } else { "0"@ })
            &&& args[4] == "sqm.@sqm[0]."@ + "verbosity"@ + "="@ + f.verbosity@
            &&& args[5] == "sqm.@sqm[0]."@ + "qdisc"@ + "="@ + f.qdisc@
            &&& args[6] == "sqm.@sqm[0]."@ + "script"@ + "="@ + f.script@
            &&& args[7] == "sqm.@sqm[0]."@ + "qdisc_advanced"@ + "="@ + (if f.qdisc_advanced is Some { "1"@ } else { "0"@ })
            &&& args[8] == "sqm.@sqm[0]."@ + "use_mq"@ + "="@ + (if f.use_mq is Some { "1"@ } else { "0"@ })
            &&& args[9] == "sqm.@sqm[0]."@ + "squash_dscp"@ + "="@ + f.squash_dscp@
            &&& args[10] == "sqm.@sqm[0]."@ + "squash_ingress"@ + "="@ + f.squash_ingress@
            &&& args[11] == "sqm.@sqm[0]."@ + "ingress_ecn"@ + "="@ + f.ingress_ecn@
            &&& args[12] == "sqm.@sqm[0]."@ + "egress_ecn"@ + "="@ + f.egress_ecn@
            &&& args[13] == "sqm.@sqm[0]."@ + "qdisc_really_really_advanced"@ + "="@ + (if f.qdisc_really_really_advanced is Some { "1"@ } else { "0"@ })
            &&& args[14] == "sqm.@sqm[0]."@ + "ilimit"@ + "="@ + f.ilimit@
            &&& args[15] == "sqm.@sqm[0]."@ + "elimit"@ + "="@ + f.elimit@
            &&& args[16] == "sqm.@sqm[0]."@ + "itarget"@ + "="@ + f.itarget@
            &&& args[17] == "sqm.@sqm[0]."@ + "etarget"@ + "="@ + f.etarget@
            &&& args[18] == "sqm.@sqm[0]."@ + "iqdisc_opts"@ + "="@ + f.iqdisc_opts@
            &&& args[19] == "sqm.@sqm[0]."@ + "eqdisc_opts"@ + "="@ + f.eqdisc_opts@
            &&& args[20] == "sqm.@sqm[0]."@ + "linklayer"@ + "="@ + f.linklayer@
            &&& args[21] == "sqm.@sqm[0]."@ + "overhead"@ + "="@ + f.overhead@
            &&& args[22] == "sqm.@sqm[0]."@ + "linklayer_advanced"@ + "="@ + (if f.linklayer_advanced is Some { "1"@ } else { "0"@ })
            &&& args[23] == "sqm.@sqm[0]."@ + "tcMTU"@ + "="@ + f.tcMTU@
            &&& args[24] == "sqm.@sqm[0]."@ + "tcTSIZE"@ + "="@ + f.tcTSIZE@
            &&& args[25] == "sqm.@sqm[0]."@ + "tcMPU"@ + "="@ + f.tcMPU@
            &&& args[26] == "sqm.@sqm[0]."@ + "linklayer_adaptation_mechanism"@ + "="@ + f.linklayer_adaptation_mechanism@
        }),
{
}

/// When `uci get` prints a value followed by a line end, the setting reads
/// back as that whole value, whatever its words; blank or missing output
/// gives the default.
pub proof fn lemma_uci_value_reads_whole_value(v: Seq<char>, d: Seq<char>)
    ensures
        text::trim(v) == v && v.len() > 0 ==> uci_value_spec(Some(v.push('\n')), d) == v,
        uci_value_spec(None, d) == d,
        text::trim(v).len() == 0 ==> uci_value_spec(Some(v), d) == d,
        text::trim(v).len() > 0 ==> uci_value_spec(Some(v), d) == text::trim(v),
{
    text::lemma_trim_push_ws(v, '\n');
}


/// Each setting is read from the output for its own key, and when `uci` has
/// nothing for it the setting takes its documented default.
#[allow(non_snake_case)]
pub proof fn lemma_settings_read_own_output(outputs: Seq<Option<Seq<char>>>, c: SqmConfig)
    requires
        outputs.len() == SQM_FIELD_COUNT,
        config_values(c) == Seq::new(
            SQM_FIELD_COUNT as nat,
            |i: int| uci_value_spec(outputs[i], sqm_defaults()[i]),
        ),
    ensures
        sqm_key(0) == "sqm.@sqm[0]."@ + "enabled"@ && c.enabled@ == uci_value_spec(outputs[0], ""@),
        sqm_key(1) == "sqm.@sqm[0]."@ + "download"@ && c.download@ == uci_value_spec(outputs[1], ""@),
        sqm_key(2) == "sqm.@sqm[0]."@ + "upload"@ && c.upload@ == uci_value_spec(outputs[2], ""@),
        sqm_key(3) == "sqm.@sqm[0]."@ + "debug_logging"@ && c.debug_logging@ == uci_value_spec(outputs[3], ""@),
        sqm_key(4) == "sqm.@sqm[0]."@ + "verbosity"@ && c.verbosity@ == uci_value_spec(outputs[4], "5"@),
        sqm_key(5) == "sqm.@sqm[0]."@ + "qdisc"@ && c.qdisc@ == uci_value_spec(outputs[5], "cake"@),
        sqm_key(6) == "sqm.@sqm[0]."@ + "script"@ && c.script@ == uci_value_spec(outputs[6], "piece_of_cake.qos"@),
        sqm_key(7) == "sqm.@sqm[0]."@ + "qdisc_advanced"@ && c.qdisc_advanced@ == uci_value_spec(outputs[7], "false"@),
        sqm_key(8) == "sqm.@sqm[0]."@ + "use_mq"@ && c.use_mq@ == uci_value_spec(outputs[8], "false"@),
        sqm_key(9) == "sqm.@sqm[0]."@ + "squash_dscp"@ && c.squash_dscp@ == uci_value_spec(outputs[9], "1"@),
        sqm_key(10) == "sqm.@sqm[0]."@ + "squash_ingress"@ && c.squash_ingress@ == uci_value_spec(outputs[10], "1"@),
        sqm_key(11) == "sqm.@sqm[0]."@ + "ingress_ecn"@ && c.ingress_ecn@ == uci_value_spec(outputs[11], "ECN"@),
        sqm_key(12) == "sqm.@sqm[0]."@ + "egress_ecn"@ && c.egress_ecn@ == uci_value_spec(outputs[12], "NOECN"@),
        sqm_key(13) == "sqm.@sqm[0]."@ + "qdisc_really_really_advanced"@ && c.qdisc_really_really_advanced@ == uci_value_spec(outputs[13], "false"@),
        sqm_key(14) == "sqm.@sqm[0]."@ + "ilimit"@ && c.ilimit@ == uci_value_spec(outputs[14], ""@),
        sqm_key(15) == "sqm.@sqm[0]."@ + "elimit"@ && c.elimit@ == uci_value_spec(outputs[15], ""@),
        sqm_key(16) == "sqm.@sqm[0]."@ + "itarget"@ && c.itarget@ == uci_value_spec(outputs[16], ""@),
        sqm_key(17) == "sqm.@sqm[0]."@ + "etarget"@ && c.etarget@ == uci_value_spec(outputs[17], ""@),
        sqm_key(18) == "sqm.@sqm[0]."@ + "iqdisc_opts"@ && c.iqdisc_opts@ == uci_value_spec(outputs[18], ""@),
        sqm_key(19) == "sqm.@sqm[0]."@ + "eqdisc_opts"@ && c.eqdisc_opts@ == uci_value_spec(outputs[19], ""@),
        sqm_key(20) == "sqm.@sqm[0]."@ + "linklayer"@ && c.linklayer@ == uci_value_spec(outputs[20], "none"@),
        sqm_key(21) == "sqm.@sqm[0]."@ + "overhead"@ && c.overhead@ == uci_value_spec(outputs[21], "0"@),
        sqm_key(22) == "sqm.@sqm[0]."@ + "linklayer_advanced"@ && c.linklayer_advanced@ == uci_value_spec(outputs[22], ""@),
        sqm_key(23) == "sqm.@sqm[0]."@ + "tcMTU"@ && c.tcMTU@ == uci_value_spec(outputs[23], "2047"@),
        sqm_key(24) == "sqm.@sqm[0]."@ + "tcTSIZE"@ && c.tcTSIZE@ == uci_value_spec(outputs[24], "128"@),
        sqm_key(25) == "sqm.@sqm[0]."@ + "tcMPU"@ && c.tcMPU@ == uci_value_spec(outputs[25], "0"@),
        sqm_key(26) == "sqm.@sqm[0]."@ + "linklayer_adaptation_mechanism"@ && c.linklayer_adaptation_mechanism@ == uci_value_spec(outputs[26], "default"@),
{
    assert(config_values(c).len() == SQM_FIELD_COUNT);
    assert(config_values(c)[0] == c.enabled@);
    assert(config_values(c)[1] == c.download@);
    assert(config_values(c)[2] == c.upload@);
    assert(config_values(c)[3] == c.debug_logging@);
    assert(config_values(c)[4] == c.verbosity@);
    assert(config_values(c)[5] == c.qdisc@);
    assert(config_values(c)[6] == c.script@);
    assert(config_values(c)[7] == c.qdisc_advanced@);
    assert(config_values(c)[8] == c.use_mq@);
    assert(config_values(c)[9] == c.squash_dscp@);
    assert(config_values(c)[10] == c.squash_ingress@);
    assert(config_values(c)[11] == c.ingress_ecn@);
    assert(config_values(c)[12] == c.egress_ecn@);
    assert(config_values(c)[13] == c.qdisc_really_really_advanced@);
    assert(config_values(c)[14] == c.ilimit@);
    assert(config_values(c)[15] == c.elimit@);
    assert(config_values(c)[16] == c.itarget@);
    assert(config_values(c)[17] == c.etarget@);
    assert(config_values(c)[18] == c.iqdisc_opts@);
    assert(config_values(c)[19] == c.eqdisc_opts@);
    assert(config_values(c)[20] == c.linklayer@);
    assert(config_values(c)[21] == c.overhead@);
    assert(config_values(c)[22] == c.linklayer_advanced@);
    assert(config_values(c)[23] == c.tcMTU@);
    assert(config_values(c)[24] == c.tcTSIZE@);
    assert(config_values(c)[25] == c.tcMPU@);
    assert(config_values(c)[26] == c.linklayer_adaptation_mechanism@);
}

} // verus!
