use vstd::prelude::*;

use crate::json::str_equal;
use crate::text::hex_digit;
use crate::tfe::{CustomError, GenericError};
use crate::yaml_data::TFEVarMetaData;

verus! {

/// The attributes sent to Terraform Enterprise to overwrite one variable.
#[derive(Debug)]
pub struct TFEPatchData {
    pub key: String,
    pub value: String,
    pub variable_id: String,
    pub description: String,
    pub category: String,
    pub sensitive: bool,
    pub hcl: bool,
}

/// A patch together with the workspace it is sent for.
#[derive(Debug)]
pub struct FinalPatchData {
    pub tfe_patch_data: TFEPatchData,
    pub tfe_var_metadata: TFEVarMetaData,
}

/// The answer to a patch that reached the server.
#[derive(Debug)]
pub struct TFEPatchResult {
    pub workspace_id: String,
    pub variable_id: String,
    pub host_name: String,
    pub status_code: u16,
}

// ------------------------------------------------------------ JSON text

/// How one character of a string is written inside a JSON string literal:
/// `"` and `\` and the control characters below U+0020 are escaped (the
/// short forms `\b \t \n \f \r` where they exist, `\u00XX` otherwise);
/// every other character stands for itself.
pub open spec fn json_char_escape(c: char) -> Seq<char> {
    if c == '"' {
        seq!['\\', '"']
    } else if c == '\\' {
        seq!['\\', '\\']
    } else if c == '\u{8}' {
        seq!['\\', 'b']
    } else if c == '\t' {
        seq!['\\', 't']
    } else if c == '\n' {
        seq!['\\', 'n']
    } else if c == '\u{c}' {
        seq!['\\', 'f']
    } else if c == '\r' {
        seq!['\\', 'r']
    } else if (c as u32) < 32 {
        seq!['\\', 'u', '0', '0', hex_digit((c as u32 / 16) as nat), hex_digit((c as u32 % 16) as nat)]
    } else {
        seq![c]
    }
}

/// The characters of `s`, each escaped for a JSON string literal.
pub open spec fn json_escape_chars(s: Seq<char>) -> Seq<char>
    decreases s.len(),
{
    if s.len() == 0 {
        Seq::empty()
    } else {
        json_char_escape(s[0]) + json_escape_chars(s.drop_first())
    }
}

/// The value of a hexadecimal digit (either case).
pub open spec fn hex_value(c: char) -> Option<nat> {
    if '0' <= c && c <= '9' {
        Some((c as nat - 48) as nat)
    } else if 'a' <= c && c <= 'f' {
        Some((c as nat - 87) as nat)
    } else if 'A' <= c && c <= 'F' {
        Some((c as nat - 55) as nat)
    } else {
        None
    }
}

/// The character a two-character escape `\e` stands for.
pub open spec fn short_escape(e: char) -> Option<char> {
    if e == '"' {
        Some('"')
    } else if e == '\\' {
        Some('\\')
    } else if e == '/' {
        Some('/')
    } else if e == 'b' {
        Some('\u{8}')
    } else if e == 'f' {
        Some('\u{c}')
    } else if e == 'n' {
        Some('\n')
    } else if e == 'r' {
        Some('\r')
    } else if e == 't' {
        Some('\t')
    } else {
        None
    }
}

/// The code of four hexadecimal digits, if they are digits.
pub open spec fn hex4_value(a: char, b: char, c: char, d: char) -> Option<nat> {
    match (hex_value(a), hex_value(b), hex_value(c), hex_value(d)) {
        (Some(x), Some(y), Some(z), Some(w)) => Some(((x * 16 + y) * 16 + z) * 16 + w),
        _ => None,
    }
}

/// `c` followed by the text `rest` stands for, if `rest` stands for one.
pub open spec fn cons_text(c: char, rest: Option<Seq<char>>) -> Option<Seq<char>> {
    match rest {
        Some(r) => Some(seq![c] + r),
        None => None,
    }
}

/// What the inside of a JSON string literal stands for, as a JSON reader
/// decodes it: escapes `\" \\ \/ \b \f \n \r \t` and `\uXXXX` outside
/// the surrogate range; `None` for an unescaped quote or control character
/// or an escape it does not read (surrogate pairs among them).
pub open spec fn json_unescape(t: Seq<char>) -> Option<Seq<char>>
    decreases t.len(),
{
    if t.len() == 0 {
        Some(Seq::empty())
    } else if t[0] == '\\' {
        if t.len() < 2 {
            None
        } else if short_escape(t[1]) is Some {
            cons_text(short_escape(t[1]).unwrap(), json_unescape(t.subrange(2, t.len() as int)))
        } else if t[1] == 'u' && t.len() >= 6 && hex4_value(t[2], t[3], t[4], t[5]) is Some {
            let code = hex4_value(t[2], t[3], t[4], t[5]).unwrap();
            if code < 0xD800 || code >= 0xE000 {
                cons_text(code as char, json_unescape(t.subrange(6, t.len() as int)))
            } else {
                None
            }
        } else {
            None
        }
    } else if t[0] == '"' || (t[0] as u32) < 32 {
        None
    } else {
        cons_text(t[0], json_unescape(t.drop_first()))
    }
}

proof fn lemma_hex_value_of_digit(d: nat)
    requires
        d < 16,
    ensures
        hex_value(hex_digit(d)) == Some(d),
{
}

proof fn lemma_unescape_one(c: char, x: Seq<char>)
    ensures
        json_unescape(json_char_escape(c) + x) == cons_text(c, json_unescape(x)),
{
    let t = json_char_escape(c) + x;
    if c == '"' || c == '\\' || c == '\u{8}' || c == '\t' || c == '\n' || c == '\u{c}' || c == '\r' {
        assert(t.subrange(2, t.len() as int) =~= x);
    } else if (c as u32) < 32 {
        let hi = (c as u32 / 16) as nat;
        let lo = (c as u32 % 16) as nat;
        lemma_hex_value_of_digit(hi);
        lemma_hex_value_of_digit(lo);
        assert(hex_value('0') == Some(0nat));
        assert(t[1] == 'u');
        assert(hex4_value(t[2], t[3], t[4], t[5]) == Some(((0nat * 16 + 0) * 16 + hi) * 16 + lo));
        assert(((0nat * 16 + 0) * 16 + hi) * 16 + lo == c as u32);
        assert(t.subrange(6, t.len() as int) =~= x);
        assert(((c as u32) as nat) as char == c);
    } else {
        assert(t.drop_first() =~= x);
    }
}

/// A string written as a JSON string literal reads back as itself: what a
/// JSON reader decodes from the inside of `json_string(s)` is `s`.
pub proof fn lemma_json_string_round_trip(s: Seq<char>)
    ensures
        json_string(s) == seq!['"'] + json_escape_chars(s) + seq!['"'],
        json_unescape(json_escape_chars(s)) == Some(s),
    decreases s.len(),
{
    if s.len() > 0 {
        lemma_json_string_round_trip(s.drop_first());
        lemma_unescape_one(s[0], json_escape_chars(s.drop_first()));
        assert(seq![s[0]] + s.drop_first() =~= s);
    } else {
        assert(json_escape_chars(s) =~= Seq::<char>::empty());
    }
}

/// `s` as a JSON string literal: quoted and escaped.
pub open spec fn json_string(s: Seq<char>) -> Seq<char> {
    seq!['"'] + json_escape_chars(s) + seq!['"']
}

/// A JSON boolean literal.
pub open spec fn json_bool(b: bool) -> Seq<char> {
    if b {
        "true"@
    } else {
        "false"@
    }
}

#[verifier::external_type_specification]
#[verifier::external_body]
pub struct ExJsonError(serde_json::Error);

/// `serde_json::to_string` of a `&str`: the string as a JSON string literal.
/// It writes `"`, then each character, escaping `"`, `\` and the control
/// characters below U+0020 (`\b \t \n \f \r`, else `\u00XX` in lower-case
/// hex), then `"` (`format_escaped_str` and its `ESCAPE` table). It writes
/// into a `Vec<u8>`, whose writes do not fail, so the result is `Ok`.
#[verifier::external_body]
fn to_json_string(s: &str) -> (r: Result<String, serde_json::Error>)
    ensures
        r is Ok,
        r.unwrap()@ == json_string(s@),
{
    serde_json::to_string(s)
}

/// `s` as a JSON string literal.
pub fn json_quote(s: &str) -> (q: String)
    ensures
        q@ == json_string(s@),
{
    match to_json_string(s) {
        Ok(t) => t,
        Err(_) => {
            assert(false);
            String::new()
        },
    }
}

/// The request body of a patch with the given members:
/// `{"data":{"attributes":{"category":..,"description":..,"hcl":..,"key":..,
/// "sensitive":..,"value":..},"id":..,"type":"vars"}}` with no white space,
/// members in the order of their names.
pub open spec fn payload_of(
    category: Seq<char>,
    description: Seq<char>,
    hcl: bool,
    key: Seq<char>,
    sensitive: bool,
    value: Seq<char>,
    id: Seq<char>,
) -> Seq<char> {
    "{\"data\":{\"attributes\":{\"category\":"@ + (json_string(category) + (",\"description\":"@ + (
    json_string(description) + hcl_part_text(hcl, key, sensitive, value, id))))
}

/// The request body that patches one variable.
pub open spec fn patch_payload(d: TFEPatchData) -> Seq<char> {
    payload_of(d.category@, d.description@, d.hcl, d.key@, d.sensitive, d.value@, d.variable_id@)
}

fn push_json_bool(s: &mut String, b: bool)
    ensures
        final(s)@ == old(s)@ + json_bool(b),
{
    if b {
        s.append("true");
    } else {
        s.append("false");
    }
}

fn push_json_string(s: &mut String, t: &String)
    ensures
        final(s)@ == old(s)@ + json_string(t@),
{
    let q = json_quote(t.as_str());
    s.append(q.as_str());
}

fn id_part(d: &TFEPatchData) -> (t: String)
    ensures
        t@ == id_part_text(d.variable_id@),
{
    let mut t = "},\"id\":".to_owned();
    push_json_string(&mut t, &d.variable_id);
    t.append(",\"type\":\"vars\"}}");
    assert(t@ =~= id_part_text(d.variable_id@));
    t
}

fn value_part(d: &TFEPatchData) -> (t: String)
    ensures
        t@ == value_part_text(d.value@, d.variable_id@),
{
    let rest = id_part(d);
    let mut t = ",\"value\":".to_owned();
    push_json_string(&mut t, &d.value);
    t.append(rest.as_str());
    assert(t@ =~= value_part_text(d.value@, d.variable_id@));
    t
}

fn sensitive_part(d: &TFEPatchData) -> (t: String)
    ensures
        t@ == sensitive_part_text(d.sensitive, d.value@, d.variable_id@),
{
    let rest = value_part(d);
    let mut t = ",\"sensitive\":".to_owned();
    push_json_bool(&mut t, d.sensitive);
    t.append(rest.as_str());
    assert(t@ =~= sensitive_part_text(d.sensitive, d.value@, d.variable_id@));
    t
}

fn key_part(d: &TFEPatchData) -> (t: String)
    ensures
        t@ == key_part_text(d.key@, d.sensitive, d.value@, d.variable_id@),
{
    let rest = sensitive_part(d);
    let mut t = ",\"key\":".to_owned();
    push_json_string(&mut t, &d.key);
    t.append(rest.as_str());
    assert(t@ =~= key_part_text(d.key@, d.sensitive, d.value@, d.variable_id@));
    t
}

fn hcl_part(d: &TFEPatchData) -> (t: String)
    ensures
        t@ == hcl_part_text(d.hcl, d.key@, d.sensitive, d.value@, d.variable_id@),
{
    let rest = key_part(d);
    let mut t = ",\"hcl\":".to_owned();
    push_json_bool(&mut t, d.hcl);
    t.append(rest.as_str());
    assert(t@ =~= hcl_part_text(d.hcl, d.key@, d.sensitive, d.value@, d.variable_id@));
    t
}

/// The JSON body that patches one variable.
pub fn get_json_from_tfe_patch_data(tfe_patch_data: &TFEPatchData) -> (json: String)
    ensures
        json@ == patch_payload(*tfe_patch_data),
{
    let d = tfe_patch_data;
    let rest = hcl_part(d);
    let mut t = ",\"description\":".to_owned();
    push_json_string(&mut t, &d.description);
    t.append(rest.as_str());
    assert(t@ =~= ",\"description\":"@ + (json_string(d.description@) + rest@));
    let mut s = "{\"data\":{\"attributes\":{\"category\":".to_owned();
    push_json_string(&mut s, &d.category);
    s.append(t.as_str());
    assert(s@ =~= patch_payload(*d));
    s
}

// ------------------------------------------------------------ requests

/// `https://<hostname>/api/v2/vars/<variable_id>`.
pub open spec fn patch_url_text(f: FinalPatchData) -> Seq<char> {
    "https://"@ + f.tfe_var_metadata.hostname@ + "/api/v2/vars/"@ + f.tfe_patch_data.variable_id@
}

/// The URL a patch is sent to.
pub fn patch_url(final_patch_data: &FinalPatchData) -> (url: String)
    ensures
        url@ == patch_url_text(*final_patch_data),
{
    let mut url = "https://".to_owned();
    url.append(final_patch_data.tfe_var_metadata.hostname.as_str());
    url.append("/api/v2/vars/");
    url.append(final_patch_data.tfe_patch_data.variable_id.as_str());
    url
}

/// `could not patch variable_id : (<id>) for workspace_id : (<ws>) , on host : (<host>)`.
pub open spec fn patch_failure_message(f: FinalPatchData) -> Seq<char> {
    "could not patch variable_id : ("@ + f.tfe_patch_data.variable_id@ + ") for workspace_id : ("@
        + f.tfe_var_metadata.workspace_id@ + ") , on host : ("@ + f.tfe_var_metadata.hostname@
        + ")"@
}

/// The outcome of sending a patch: `status` is the HTTP status of the
/// response, or `None` when the request failed before a response came.
pub fn patch_outcome(final_patch_data: &FinalPatchData, status: Option<u16>) -> (r: Result<TFEPatchResult, CustomError>)
    ensures
        status matches Some(code) ==> (r matches Ok(p) && p.status_code == code
            && p.workspace_id@ == final_patch_data.tfe_var_metadata.workspace_id@
            && p.variable_id@ == final_patch_data.tfe_patch_data.variable_id@
            && p.host_name@ == final_patch_data.tfe_var_metadata.hostname@),
        status is None ==> (r matches Err(e) && e.err_type is PatchError
            && e.err_msg@ == patch_failure_message(*final_patch_data)),
{
    let f = final_patch_data;
    match status {
        Some(code) => Ok(TFEPatchResult {
            workspace_id: f.tfe_var_metadata.workspace_id.clone(),
            variable_id: f.tfe_patch_data.variable_id.clone(),
            host_name: f.tfe_var_metadata.hostname.clone(),
            status_code: code,
        }),
        None => {
            let mut msg = "could not patch variable_id : (".to_owned();
            msg.append(f.tfe_patch_data.variable_id.as_str());
            msg.append(") for workspace_id : (");
            msg.append(f.tfe_var_metadata.workspace_id.as_str());
            msg.append(") , on host : (");
            msg.append(f.tfe_var_metadata.hostname.as_str());
            msg.append(")");
            Err(CustomError { err_type: GenericError::PatchError, err_msg: msg })
        },
    }
}

// ------------------------------------------------------------ patch list

/// The variable id recorded for `workspace_id`: the first pair whose key
/// it is.
pub open spec fn recorded_id(pairs: Seq<(String, String)>, workspace_id: Seq<char>) -> Option<Seq<char>>
    decreases pairs.len(),
{
    if pairs.len() == 0 {
        None
    } else if pairs[0].0@ == workspace_id {
        Some(pairs[0].1@)
    } else {
        recorded_id(pairs.drop_first(), workspace_id)
    }
}

/// Looks up the variable id recorded for a workspace.
pub fn lookup_variable_id(var_ids: &Vec<(String, String)>, workspace_id: &str) -> (r: Option<String>)
    ensures
        r is Some <==> recorded_id(var_ids@, workspace_id@) is Some,
        r matches Some(v) ==> recorded_id(var_ids@, workspace_id@) == Some(v@),
{
    let mut i: usize = 0;
    assert(var_ids@.subrange(0, var_ids@.len() as int) =~= var_ids@);
    while i < var_ids.len()
        invariant
            i <= var_ids@.len(),
            recorded_id(var_ids@, workspace_id@) == recorded_id(
                var_ids@.subrange(i as int, var_ids@.len() as int),
                workspace_id@,
            ),
        decreases var_ids@.len() - i,
    {
        let ghost rest = var_ids@.subrange(i as int, var_ids@.len() as int);
        assert(rest[0] == var_ids@[i as int]);
        assert(rest.drop_first() =~= var_ids@.subrange(i + 1, var_ids@.len() as int));
        if str_equal(var_ids[i].0.as_str(), workspace_id) {
            return Some(var_ids[i].1.clone());
        }
        i = i + 1;
    }
    assert(var_ids@.subrange(i as int, var_ids@.len() as int) =~= Seq::<(String, String)>::empty());
    None
}

/// The description written into every patched variable.
pub open spec fn patch_description() -> Seq<char> {
    "patched_on_2023_09_06"@
}

/// `f` is the patch of workspace `w` with variable id `var_id`: the
/// workspace entry copied, key and value from the entry, an environment
/// variable, sensitive, not HCL.
pub open spec fn is_patch_for(w: TFEVarMetaData, var_id: Seq<char>, f: FinalPatchData) -> bool {
    &&& f.tfe_var_metadata.workspace_id@ == w.workspace_id@
    &&& f.tfe_var_metadata.hostname@ == w.hostname@
    &&& f.tfe_var_metadata.token@ == w.token@
    &&& f.tfe_var_metadata.var_name@ == w.var_name@
    &&& f.tfe_var_metadata.var_value@ == w.var_value@
    &&& f.tfe_patch_data.key@ == w.var_name@
    &&& f.tfe_patch_data.value@ == w.var_value@
    &&& f.tfe_patch_data.variable_id@ == var_id
    &&& f.tfe_patch_data.description@ == patch_description()
    &&& f.tfe_patch_data.category@ == "env"@
    &&& f.tfe_patch_data.sensitive
    &&& !f.tfe_patch_data.hcl
}

fn copy_metadata(w: &TFEVarMetaData) -> (c: TFEVarMetaData)
    ensures
        c.workspace_id@ == w.workspace_id@,
        c.hostname@ == w.hostname@,
        c.token@ == w.token@,
        c.var_name@ == w.var_name@,
        c.var_value@ == w.var_value@,
{
    TFEVarMetaData {
        workspace_id: w.workspace_id.clone(),
        hostname: w.hostname.clone(),
        token: w.token.clone(),
        var_name: w.var_name.clone(),
        var_value: w.var_value.clone(),
    }
}

/// One patch per workspace entry, in the same order, each with the variable
/// id recorded for its workspace.
pub fn build_final_patch_data_list(workspaces: &Vec<TFEVarMetaData>, var_ids: &Vec<(String, String)>) -> (list: Vec<FinalPatchData>)
    requires
        forall|i: int| 0 <= i < workspaces@.len() ==> (#[trigger] recorded_id(var_ids@, workspaces@[i].workspace_id@)) is Some,
    ensures
        list@.len() == workspaces@.len(),
        forall|i: int| 0 <= i < workspaces@.len() ==> is_patch_for(
            workspaces@[i],
            recorded_id(var_ids@, workspaces@[i].workspace_id@).unwrap(),
            #[trigger] list@[i],
        ),
{
    let mut final_list: Vec<FinalPatchData> = Vec::new();
    let mut i: usize = 0;
    while i < workspaces.len()
        invariant
            i <= workspaces@.len(),
            final_list@.len() == i,
            forall|j: int| 0 <= j < workspaces@.len() ==> (#[trigger] recorded_id(var_ids@, workspaces@[j].workspace_id@)) is Some,
            forall|j: int| 0 <= j < i ==> is_patch_for(
                workspaces@[j],
                recorded_id(var_ids@, workspaces@[j].workspace_id@).unwrap(),
                #[trigger] final_list@[j],
            ),
        decreases workspaces@.len() - i,
    {
        let w = &workspaces[i];
        assert(recorded_id(var_ids@, workspaces@[i as int].workspace_id@) is Some);
        let var_id = match lookup_variable_id(var_ids, w.workspace_id.as_str()) {
            Some(v) => v,
            None => {
                assert(false);
                String::new()
            },
        };
        let tfe_patch_data = TFEPatchData {
            key: w.var_name.clone(),
            value: w.var_value.clone(),
            variable_id: var_id,
            description: "patched_on_2023_09_06".to_owned(),
            category: "env".to_owned(),
            sensitive: true,
            hcl: false,
        };
        let tfe_var_metadata = copy_metadata(w);
        final_list.push(FinalPatchData { tfe_patch_data, tfe_var_metadata });
        i = i + 1;
    }
    final_list
}

/// The patch built for a workspace sends, in its body, the workspace's
/// variable name as `key`, its value from the workspace file as `value`
/// and the recorded variable id as `id`: an environment variable,
/// sensitive, not HCL.
pub proof fn lemma_patch_body_of_workspace(w: TFEVarMetaData, var_id: Seq<char>, f: FinalPatchData)
    requires
        is_patch_for(w, var_id, f),
    ensures
        patch_payload(f.tfe_patch_data) == payload_of(
            "env"@,
            patch_description(),
            false,
            w.var_name@,
            true,
            w.var_value@,
            var_id,
        ),
{
}

// ------------------------------------------------------------ reading a body back

/// How many characters of `t` come before the quote that closes a JSON
/// string literal, stepping over two-character escapes; `None` when no
/// such quote comes.
pub open spec fn string_body_len(t: Seq<char>) -> Option<nat>
    decreases t.len(),
{
    if t.len() == 0 {
        None
    } else if t[0] == '"' {
        Some(0)
    } else if t[0] == '\\' {
        if t.len() < 2 {
            None
        } else {
            match string_body_len(t.subrange(2, t.len() as int)) {
                Some(n) => Some(n + 2),
                None => None,
            }
        }
    } else {
        match string_body_len(t.drop_first()) {
            Some(n) => Some(n + 1),
            None => None,
        }
    }
}

/// Reads a JSON string literal at the start of `t`: the text it stands for
/// and what follows it.
pub open spec fn read_json_string(t: Seq<char>) -> Option<(Seq<char>, Seq<char>)> {
    if t.len() >= 1 && t[0] == '"' {
        match string_body_len(t.drop_first()) {
            Some(n) => match json_unescape(t.subrange(1, (1 + n) as int)) {
                Some(s) => Some((s, t.subrange((n + 2) as int, t.len() as int))),
                None => None,
            },
            None => None,
        }
    } else {
        None
    }
}

/// What follows `lit` at the start of `t`.
pub open spec fn strip_literal(t: Seq<char>, lit: Seq<char>) -> Option<Seq<char>> {
    if lit.is_prefix_of(t) {
        Some(t.subrange(lit.len() as int, t.len() as int))
    } else {
        None
    }
}

/// Reads a JSON boolean literal at the start of `t`.
pub open spec fn read_json_bool(t: Seq<char>) -> Option<(bool, Seq<char>)> {
    match strip_literal(t, "true"@) {
        Some(r) => Some((true, r)),
        None => match strip_literal(t, "false"@) {
            Some(r) => Some((false, r)),
            None => None,
        },
    }
}

/// Reads `"},\"id\":"`, the id string and the closing `",\"type\":\"vars\"}}"`.
pub open spec fn read_id_part(t: Seq<char>) -> Option<Seq<char>> {
    match strip_literal(t, "},\"id\":"@) {
        None => None,
        Some(t) => match read_json_string(t) {
            Some((id, t)) => if t == ",\"type\":\"vars\"}}"@ {
                Some(id)
            } else {
                None
            },
            None => None,
        },
    }
}

/// Reads the `value` member and the rest: (value, id).
pub open spec fn read_value_part(t: Seq<char>) -> Option<(Seq<char>, Seq<char>)> {
    match strip_literal(t, ",\"value\":"@) {
        None => None,
        Some(t) => match read_json_string(t) {
            Some((value, t)) => match read_id_part(t) {
                Some(id) => Some((value, id)),
                None => None,
            },
            None => None,
        },
    }
}

/// Reads the `sensitive` member and the rest: (sensitive, value, id).
pub open spec fn read_sensitive_part(t: Seq<char>) -> Option<(bool, Seq<char>, Seq<char>)> {
    match strip_literal(t, ",\"sensitive\":"@) {
        None => None,
        Some(t) => match read_json_bool(t) {
            Some((sensitive, t)) => match read_value_part(t) {
                Some((value, id)) => Some((sensitive, value, id)),
                None => None,
            },
            None => None,
        },
    }
}

/// Reads the `key` member and the rest: (key, sensitive, value, id).
pub open spec fn read_key_part(t: Seq<char>) -> Option<(Seq<char>, bool, Seq<char>, Seq<char>)> {
    match strip_literal(t, ",\"key\":"@) {
        None => None,
        Some(t) => match read_json_string(t) {
            Some((key, t)) => match read_sensitive_part(t) {
                Some((sensitive, value, id)) => Some((key, sensitive, value, id)),
                None => None,
            },
            None => None,
        },
    }
}

/// Reads the `hcl` member and the rest: (hcl, key, sensitive, value, id).
pub open spec fn read_hcl_part(t: Seq<char>) -> Option<(bool, Seq<char>, bool, Seq<char>, Seq<char>)> {
    match strip_literal(t, ",\"hcl\":"@) {
        None => None,
        Some(t) => match read_json_bool(t) {
            Some((hcl, t)) => match read_key_part(t) {
                Some((key, sensitive, value, id)) => Some((hcl, key, sensitive, value, id)),
                None => None,
            },
            None => None,
        },
    }
}

/// Reads the `description` member and the rest.
pub open spec fn read_description_part(t: Seq<char>) -> Option<(Seq<char>, bool, Seq<char>, bool, Seq<char>, Seq<char>)> {
    match strip_literal(t, ",\"description\":"@) {
        None => None,
        Some(t) => match read_json_string(t) {
            Some((description, t)) => match read_hcl_part(t) {
                Some((hcl, key, sensitive, value, id)) => Some((description, hcl, key, sensitive, value, id)),
                None => None,
            },
            None => None,
        },
    }
}

/// Reads a patch body laid out as `payload_of` lays it out: category,
/// description, hcl, key, sensitive, value and id, in that order; `None`
/// when the text is not such a body.
pub open spec fn read_payload(t: Seq<char>) -> Option<(Seq<char>, Seq<char>, bool, Seq<char>, bool, Seq<char>, Seq<char>)> {
    match strip_literal(t, "{\"data\":{\"attributes\":{\"category\":"@) {
        None => None,
        Some(t) => match read_json_string(t) {
            Some((category, t)) => match read_description_part(t) {
                Some((description, hcl, key, sensitive, value, id)) => Some(
                    (category, description, hcl, key, sensitive, value, id),
                ),
                None => None,
            },
            None => None,
        },
    }
}

proof fn lemma_strip_literal(lit: Seq<char>, rest: Seq<char>)
    ensures
        strip_literal(lit + rest, lit) == Some(rest),
{
    assert((lit + rest).subrange(0, lit.len() as int) =~= lit);
    assert((lit + rest).subrange(lit.len() as int, (lit + rest).len() as int) =~= rest);
}

proof fn lemma_read_json_bool(b: bool, rest: Seq<char>)
    ensures
        read_json_bool(json_bool(b) + rest) == Some((b, rest)),
{
    reveal_strlit("true");
    reveal_strlit("false");
    lemma_strip_literal(json_bool(b), rest);
    if !b {
        let t = json_bool(b) + rest;
        assert(t[0] == 'f');
        assert(!"true"@.is_prefix_of(t));
    }
}

/// `o` with `k` added to the count it holds.
pub open spec fn shifted(o: Option<nat>, k: nat) -> Option<nat> {
    match o {
        Some(n) => Some(n + k),
        None => None,
    }
}

proof fn lemma_body_len_plain(c: char, x: Seq<char>)
    requires
        c != '"' && c != '\\',
    ensures
        string_body_len(seq![c] + x) == shifted(string_body_len(x), 1),
{
    let t = seq![c] + x;
    assert(t[0] == c);
    assert(t.drop_first() =~= x);
}

proof fn lemma_body_len_one(c: char, x: Seq<char>)
    ensures
        string_body_len(json_char_escape(c) + x) == shifted(string_body_len(x), json_char_escape(c).len()),
{
    let t = json_char_escape(c) + x;
    if c == '"' || c == '\\' || c == '\u{8}' || c == '\t' || c == '\n' || c == '\u{c}' || c == '\r' {
        assert(json_char_escape(c).len() == 2);
        assert(t[0] == '\\');
        assert(t.subrange(2, t.len() as int) =~= x);
        assert(string_body_len(t) == shifted(string_body_len(x), 2));
    } else if (c as u32) < 32 {
        let hi = (c as u32 / 16) as nat;
        let lo = (c as u32 % 16) as nat;
        assert(hi < 16 && lo < 16);
        let d5 = seq![hex_digit(lo)] + x;
        let d4 = seq![hex_digit(hi)] + d5;
        let d3 = seq!['0'] + d4;
        let d2 = seq!['0'] + d3;
        lemma_body_len_plain(hex_digit(lo), x);
        lemma_body_len_plain(hex_digit(hi), d5);
        lemma_body_len_plain('0', d4);
        lemma_body_len_plain('0', d3);
        assert(json_char_escape(c).len() == 6);
        assert(t[0] == '\\');
        assert(t.subrange(2, t.len() as int) =~= d2);
        assert(string_body_len(t) == shifted(string_body_len(d2), 2));
    } else {
        assert(json_char_escape(c) == seq![c]);
        lemma_body_len_plain(c, x);
    }
}

proof fn lemma_body_len(s: Seq<char>, rest: Seq<char>)
    ensures
        string_body_len(json_escape_chars(s) + rest) == shifted(string_body_len(rest), json_escape_chars(s).len()),
    decreases s.len(),
{
    if s.len() > 0 {
        lemma_body_len(s.drop_first(), rest);
        let e = json_escape_chars(s.drop_first());
        assert(json_escape_chars(s) + rest =~= json_char_escape(s[0]) + (e + rest));
        lemma_body_len_one(s[0], e + rest);
    } else {
        assert(json_escape_chars(s) + rest =~= rest);
    }
}

proof fn lemma_read_json_string(s: Seq<char>, rest: Seq<char>)
    ensures
        read_json_string(json_string(s) + rest) == Some((s, rest)),
{
    lemma_json_string_round_trip(s);
    let e = json_escape_chars(s);
    let t = json_string(s) + rest;
    assert(t.drop_first() =~= e + (seq!['"'] + rest));
    lemma_body_len(s, seq!['"'] + rest);
    assert(string_body_len(seq!['"'] + rest) == Some(0nat));
    assert(t.subrange(1, (1 + e.len()) as int) =~= e);
    assert(t.subrange((e.len() + 2) as int, t.len() as int) =~= rest);
}

/// The text from the `id` member to the end of a patch body.
pub open spec fn id_part_text(id: Seq<char>) -> Seq<char> {
    "},\"id\":"@ + (json_string(id) + ",\"type\":\"vars\"}}"@)
}

/// The text from the `value` member to the end of a patch body.
pub open spec fn value_part_text(value: Seq<char>, id: Seq<char>) -> Seq<char> {
    ",\"value\":"@ + (json_string(value) + id_part_text(id))
}

/// The text from the `sensitive` member to the end of a patch body.
pub open spec fn sensitive_part_text(sensitive: bool, value: Seq<char>, id: Seq<char>) -> Seq<char> {
    ",\"sensitive\":"@ + (json_bool(sensitive) + value_part_text(value, id))
}

/// The text from the `key` member to the end of a patch body.
pub open spec fn key_part_text(key: Seq<char>, sensitive: bool, value: Seq<char>, id: Seq<char>) -> Seq<char> {
    ",\"key\":"@ + (json_string(key) + sensitive_part_text(sensitive, value, id))
}

/// The text from the `hcl` member to the end of a patch body.
pub open spec fn hcl_part_text(hcl: bool, key: Seq<char>, sensitive: bool, value: Seq<char>, id: Seq<char>) -> Seq<char> {
    ",\"hcl\":"@ + (json_bool(hcl) + key_part_text(key, sensitive, value, id))
}

/// The text from the `description` member to the end of a patch body.
pub open spec fn description_part_text(d: TFEPatchData) -> Seq<char> {
    ",\"description\":"@ + (json_string(d.description@) + hcl_part_text(
        d.hcl,
        d.key@,
        d.sensitive,
        d.value@,
        d.variable_id@,
    ))
}

proof fn lemma_read_id_part(id: Seq<char>)
    ensures
        read_id_part(id_part_text(id)) == Some(id),
{
    lemma_strip_literal("},\"id\":"@, json_string(id) + ",\"type\":\"vars\"}}"@);
    lemma_read_json_string(id, ",\"type\":\"vars\"}}"@);
}

proof fn lemma_read_value_part(value: Seq<char>, id: Seq<char>)
    ensures
        read_value_part(value_part_text(value, id)) == Some((value, id)),
{
    lemma_read_id_part(id);
    lemma_strip_literal(",\"value\":"@, json_string(value) + id_part_text(id));
    lemma_read_json_string(value, id_part_text(id));
}

proof fn lemma_read_sensitive_part(sensitive: bool, value: Seq<char>, id: Seq<char>)
    ensures
        read_sensitive_part(sensitive_part_text(sensitive, value, id)) == Some((sensitive, value, id)),
{
    lemma_read_value_part(value, id);
    lemma_strip_literal(",\"sensitive\":"@, json_bool(sensitive) + value_part_text(value, id));
    lemma_read_json_bool(sensitive, value_part_text(value, id));
}

proof fn lemma_read_key_part(key: Seq<char>, sensitive: bool, value: Seq<char>, id: Seq<char>)
    ensures
        read_key_part(key_part_text(key, sensitive, value, id)) == Some((key, sensitive, value, id)),
{
    lemma_read_sensitive_part(sensitive, value, id);
    lemma_strip_literal(",\"key\":"@, json_string(key) + sensitive_part_text(sensitive, value, id));
    lemma_read_json_string(key, sensitive_part_text(sensitive, value, id));
}

proof fn lemma_read_hcl_part(hcl: bool, key: Seq<char>, sensitive: bool, value: Seq<char>, id: Seq<char>)
    ensures
        read_hcl_part(hcl_part_text(hcl, key, sensitive, value, id)) == Some((hcl, key, sensitive, value, id)),
{
    lemma_read_key_part(key, sensitive, value, id);
    lemma_strip_literal(",\"hcl\":"@, json_bool(hcl) + key_part_text(key, sensitive, value, id));
    lemma_read_json_bool(hcl, key_part_text(key, sensitive, value, id));
}

proof fn lemma_read_description_part(d: TFEPatchData)
    ensures
        read_description_part(description_part_text(d)) == Some(
            (d.description@, d.hcl, d.key@, d.sensitive, d.value@, d.variable_id@),
        ),
{
    let rest = hcl_part_text(d.hcl, d.key@, d.sensitive, d.value@, d.variable_id@);
    lemma_read_hcl_part(d.hcl, d.key@, d.sensitive, d.value@, d.variable_id@);
    lemma_strip_literal(",\"description\":"@, json_string(d.description@) + rest);
    lemma_read_json_string(d.description@, rest);
}

/// A patch body reads back as the patch it was made from: reading
/// `patch_payload(d)` gives `d`'s category, description, hcl flag, key,
/// sensitive flag, value and variable id, whatever characters the strings
/// hold.
pub proof fn lemma_patch_payload_reads_back(d: TFEPatchData)
    ensures
        read_payload(patch_payload(d)) == Some(
            (d.category@, d.description@, d.hcl, d.key@, d.sensitive, d.value@, d.variable_id@),
        ),
{
    let rest = description_part_text(d);
    lemma_read_description_part(d);
    lemma_strip_literal("{\"data\":{\"attributes\":{\"category\":"@, json_string(d.category@) + rest);
    lemma_read_json_string(d.category@, rest);
}

// ------------------------------------------------------------ laws of the patch list and URL

/// The patch made for a workspace entry is sent for that very entry: every
/// field of its workspace data (id, host, token, name, value) is the
/// entry's own, its key and value are the entry's name and value, and its
/// variable id is the one recorded for it.
pub proof fn lemma_patch_keeps_workspace(w: TFEVarMetaData, var_id: Seq<char>, f: FinalPatchData)
    requires
        is_patch_for(w, var_id, f),
    ensures
        f.tfe_var_metadata.workspace_id@ == w.workspace_id@,
        f.tfe_var_metadata.hostname@ == w.hostname@,
        f.tfe_var_metadata.token@ == w.token@,
        f.tfe_var_metadata.var_name@ == w.var_name@,
        f.tfe_var_metadata.var_value@ == w.var_value@,
        f.tfe_patch_data.key@ == w.var_name@,
        f.tfe_patch_data.value@ == w.var_value@,
        f.tfe_patch_data.variable_id@ == var_id,
{
}

/// The patch URL starts with `https://`, the host and `/api/v2/vars/`, and
/// what follows is the variable id itself, character for character: the
/// URL is exactly as long as those two parts.
pub proof fn lemma_patch_url_parts(f: FinalPatchData)
    ensures
        ("https://"@ + f.tfe_var_metadata.hostname@ + "/api/v2/vars/"@).is_prefix_of(patch_url_text(f)),
        patch_url_text(f).len() == ("https://"@ + f.tfe_var_metadata.hostname@ + "/api/v2/vars/"@).len()
            + f.tfe_patch_data.variable_id@.len(),
        patch_url_text(f).subrange(
            patch_url_text(f).len() - f.tfe_patch_data.variable_id@.len(),
            patch_url_text(f).len() as int,
        ) == f.tfe_patch_data.variable_id@,
{
    let p = "https://"@ + f.tfe_var_metadata.hostname@ + "/api/v2/vars/"@;
    let id = f.tfe_patch_data.variable_id@;
    assert(patch_url_text(f) =~= p + id);
    assert((p + id).subrange(0, p.len() as int) =~= p);
    assert((p + id).subrange(p.len() as int, (p + id).len() as int) =~= id);
}

/// Two patches for the same host whose variable ids differ go to different
/// URLs.
pub proof fn lemma_patch_url_tells_ids_apart(f: FinalPatchData, g: FinalPatchData)
    requires
        f.tfe_var_metadata.hostname@ == g.tfe_var_metadata.hostname@,
        f.tfe_patch_data.variable_id@ != g.tfe_patch_data.variable_id@,
    ensures
        patch_url_text(f) != patch_url_text(g),
{
    lemma_patch_url_parts(f);
    lemma_patch_url_parts(g);
}

} // verus!
