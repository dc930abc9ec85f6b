//! The configuration translation pipeline: request classification, the
//! session cache, the three command assemblers, the environment forwarder
//! and the orchestrator that produces the attach bundle.

use vstd::prelude::*;
use crate::json::Json;
use crate::json::JsonV;
use crate::json::get_field;
use crate::json::json_view;
use crate::json::json_view_entries;
use crate::json::json_view_entry;
use crate::json::json_view_items;
use crate::json::ser;
use crate::json::str_eq;
use crate::strutil::chars_to_string;
use crate::strutil::concat_chars;
use crate::strutil::eq_at;
use crate::strutil::expand_chars;
use crate::strutil::expand_spec;
use crate::strutil::infer_home_from_path;
use crate::strutil::infer_home_spec;
use crate::strutil::str_chars;
use crate::strutil::sub_chars;
use vstd::string::StringExecFns;

verus! {

/// The session-initiation mode reported to the host runtime.
#[derive(Clone, Copy, PartialEq, Eq, Structural, Debug)]
pub enum RequestKind {
    Attach,
    Launch,
}

/// The classification of a raw configuration: a string `request` field that
/// is exactly `launch` yields `Launch`; everything else yields `Attach`.
pub open spec fn classify_spec(cfg: JsonV) -> RequestKind {
    match get_field(cfg, "request"@) {
        Some(JsonV::Str(s)) => if s == "launch"@ {
            RequestKind::Launch
        } else {
            RequestKind::Attach
        },
        _ => RequestKind::Attach,
    }
}

/// The host:port remainder of a well-formed `target` field: `Some` exactly
/// when `target` is a string starting with `tcp://`.
pub open spec fn tcp_address(cfg: JsonV) -> Option<Seq<char>> {
    match get_field(cfg, "target"@) {
        Some(JsonV::Str(s)) => if s.len() >= 6 && s.subrange(0, 6) == "tcp://"@ {
            Some(s.skip(6))
        } else {
            None
        },
        _ => None,
    }
}

/// The string entries of `items`, in order; entries of any other kind are
/// skipped.
pub open spec fn string_items(items: Seq<JsonV>) -> Seq<Seq<char>>
    decreases items.len(),
{
    if items.len() == 0 {
        Seq::empty()
    } else {
        match items[0] {
            JsonV::Str(s) => seq![s] + string_items(items.skip(1)),
            _ => string_items(items.skip(1)),
        }
    }
}

/// The `target create` command for an expanded string `program` field, or
/// nothing.
pub open spec fn program_commands(cfg: JsonV, home: Seq<char>) -> Seq<Seq<char>> {
    match get_field(cfg, "program"@) {
        Some(JsonV::Str(p)) => seq!["target create "@ + expand_spec(p, home)],
        _ => Seq::empty(),
    }
}

/// The user-supplied attach commands: the string entries of a
/// `attachCommands` array, or nothing.
pub open spec fn user_attach_commands(cfg: JsonV) -> Seq<Seq<char>> {
    match get_field(cfg, "attachCommands"@) {
        Some(JsonV::Arr(items)) => string_items(items),
        _ => Seq::empty(),
    }
}

/// The ordered attach commands: target creation first, then the remote
/// connection, then the user-supplied commands.
pub open spec fn attach_commands_spec(cfg: JsonV, home: Seq<char>, addr: Seq<char>) -> Seq<
    Seq<char>,
> {
    program_commands(cfg, home) + seq!["gdb-remote "@ + addr] + user_attach_commands(cfg)
}

/// One mapping-object entry after expansion: a string under `localRoot` or
/// `remoteRoot` is expanded; every other entry is untouched.
pub open spec fn expand_mapping_entry(e: (Seq<char>, JsonV), home: Seq<char>) -> (
    Seq<char>,
    JsonV,
) {
    if (e.0 == "localRoot"@ || e.0 == "remoteRoot"@) && e.1 is Str {
        (e.0, JsonV::Str(expand_spec(e.1->Str_0, home)))
    } else {
        e
    }
}

/// One path mapping after expansion: a non-object passes through unchanged.
pub open spec fn expand_mapping(m: JsonV, home: Seq<char>) -> JsonV {
    match m {
        JsonV::Obj(es) => JsonV::Obj(
            Seq::new(es.len(), |i: int| expand_mapping_entry(es[i], home)),
        ),
        _ => m,
    }
}

/// The `pathMappings` array after expansion, order preserved.
pub open spec fn expanded_mappings(ms: Seq<JsonV>, home: Seq<char>) -> Seq<JsonV> {
    Seq::new(ms.len(), |i: int| expand_mapping(ms[i], home))
}

/// The auto-generated `settings set target.source-map` commands: one for
/// each mapping that has both `remoteRoot` and `localRoot` as strings, in
/// the original mapping order, with both sides expanded.
pub open spec fn source_map_commands(ms: Seq<JsonV>, home: Seq<char>) -> Seq<Seq<char>>
    decreases ms.len(),
{
    if ms.len() == 0 {
        Seq::empty()
    } else {
        let rest = source_map_commands(ms.skip(1), home);
        match (get_field(ms[0], "remoteRoot"@), get_field(ms[0], "localRoot"@)) {
            (Some(JsonV::Str(r)), Some(JsonV::Str(l))) => seq![
                "settings set target.source-map "@ + expand_spec(r, home) + " "@ + expand_spec(
                    l,
                    home,
                ),
            ] + rest,
            _ => rest,
        }
    }
}

/// The user-supplied init commands: the string entries of an `initCommands`
/// array, or nothing.
pub open spec fn user_init_commands(cfg: JsonV) -> Seq<Seq<char>> {
    match get_field(cfg, "initCommands"@) {
        Some(JsonV::Arr(items)) => string_items(items),
        _ => Seq::empty(),
    }
}

/// The ordered init commands: the user-supplied ones first, then the
/// auto-generated source-map commands.
pub open spec fn init_commands_spec(cfg: JsonV, home: Seq<char>) -> Seq<Seq<char>> {
    user_init_commands(cfg) + match get_field(cfg, "pathMappings"@) {
        Some(JsonV::Arr(ms)) => source_map_commands(ms, home),
        _ => Seq::empty(),
    }
}

/// A forwarded environment value: a string is forwarded verbatim, every
/// other value by its canonical JSON text.
pub open spec fn env_value_text(v: JsonV) -> Seq<char> {
    match v {
        JsonV::Str(s) => s,
        _ => ser(v),
    }
}

/// The forwarded environment pairs: one per entry of the `env` object, in
/// the object's own order.
pub open spec fn env_pairs_spec(cfg: JsonV) -> Seq<(Seq<char>, Seq<char>)> {
    match get_field(cfg, "env"@) {
        Some(JsonV::Obj(es)) => Seq::new(
            es.len(),
            |i: int| (es[i].0, env_value_text(es[i].1)),
        ),
        _ => Seq::empty(),
    }
}

/// The command strings as JSON values.
pub open spec fn strs_to_json(cmds: Seq<Seq<char>>) -> Seq<JsonV> {
    Seq::new(cmds.len(), |i: int| JsonV::Str(cmds[i]))
}

/// The two entries every output configuration has: the `attach` framing and
/// the attach commands.
pub open spec fn base_entries(cfg: JsonV, home: Seq<char>, addr: Seq<char>) -> Seq<
    (Seq<char>, JsonV),
> {
    seq![
        ("request"@, JsonV::Str("attach"@)),
        ("attachCommands"@, JsonV::Arr(strs_to_json(attach_commands_spec(cfg, home, addr)))),
    ]
}

/// The `stopOnEntry` entry, carried through unchanged when present.
pub open spec fn stop_entries(cfg: JsonV) -> Seq<(Seq<char>, JsonV)> {
    match get_field(cfg, "stopOnEntry"@) {
        Some(v) => seq![("stopOnEntry"@, v)],
        None => Seq::empty(),
    }
}

/// The expanded `pathMappings` entry, present when the input has an array.
pub open spec fn mapping_entries(cfg: JsonV, home: Seq<char>) -> Seq<(Seq<char>, JsonV)> {
    match get_field(cfg, "pathMappings"@) {
        Some(JsonV::Arr(ms)) => seq![
            ("pathMappings"@, JsonV::Arr(expanded_mappings(ms, home))),
        ],
        _ => Seq::empty(),
    }
}

/// The `initCommands` entry, omitted entirely when the command list is
/// empty.
pub open spec fn init_entries(cfg: JsonV, home: Seq<char>) -> Seq<(Seq<char>, JsonV)> {
    if init_commands_spec(cfg, home).len() > 0 {
        seq![("initCommands"@, JsonV::Arr(strs_to_json(init_commands_spec(cfg, home))))]
    } else {
        Seq::empty()
    }
}

/// The whole output configuration object.
pub open spec fn output_config_spec(cfg: JsonV, home: Seq<char>, addr: Seq<char>) -> JsonV {
    JsonV::Obj(
        base_entries(cfg, home, addr) + stop_entries(cfg) + mapping_entries(cfg, home)
            + init_entries(cfg, home),
    )
}

/// The character sequences of a vector of strings.
pub open spec fn strings_view(v: Vec<String>) -> Seq<Seq<char>> {
    Seq::new(v@.len(), |i: int| v@[i]@)
}

/// The character sequences of a vector of string pairs.
pub open spec fn pairs_view(v: Vec<(String, String)>) -> Seq<(Seq<char>, Seq<char>)> {
    Seq::new(v@.len(), |i: int| (v@[i].0@, v@[i].1@))
}

/// The finished command bundle handed back to the host runtime.
#[derive(Debug)]
pub struct AttachBundle {
    /// The output configuration object, always framed as an attach request.
    pub configuration: Json,
    /// Environment pairs forwarded to the adapter process, in input order.
    pub envs: Vec<(String, String)>,
    /// The debugger backend's invocation name.
    pub command: String,
    /// Arguments for the backend; none are ever produced.
    pub arguments: Vec<String>,
    /// The classification reported alongside the bundle.
    pub request: RequestKind,
}

/// The orchestrator: owns the session cache written by `classify` and read
/// by `translate`.
pub struct Translator {
    /// The most recently classified configuration, overwritten on each
    /// classify call.
    pub last_config: Option<Json>,
    /// The most recently computed request kind.
    pub last_kind: Option<RequestKind>,
}

impl Translator {
    /// The cached configuration's shape, or the empty object when nothing
    /// was cached.
    pub open spec fn effective_config(&self) -> JsonV {
        match self.last_config {
            Some(c) => json_view(c),
            None => JsonV::Obj(Seq::empty()),
        }
    }

    /// The kind reported alongside the bundle: the cached classification,
    /// or `Attach` when nothing was classified.
    pub open spec fn effective_kind(&self) -> RequestKind {
        match self.last_kind {
            Some(k) => k,
            None => RequestKind::Attach,
        }
    }

    /// A translator with no cached session.
    pub fn new() -> (t: Translator)
        ensures
            t.last_config is None,
            t.last_kind is None,
    {
        Translator { last_config: None, last_kind: None }
    }

    /// Classifies `config` and caches both the configuration and the
    /// classification for the later translate call. Never fails: malformed
    /// or absent `request` fields degrade to `Attach`.
    pub fn classify(&mut self, config: Json) -> (r: RequestKind)
        ensures
            r == classify_spec(config@),
            final(self).last_config == Some(config),
            final(self).last_kind == Some(r),
    {
        let r = match config.get("request") {
            Some(j) => match j {
                Json::Str(s) => if str_eq(s.as_str(), "launch") {
                    RequestKind::Launch
                } else {
                    RequestKind::Attach
                },
                _ => RequestKind::Attach,
            },
            None => RequestKind::Attach,
        };
        self.last_config = Some(config);
        self.last_kind = Some(r);
        r
    }

    /// Translates the cached session into the attach bundle for the given
    /// workspace root. `env_home` is the caller's reading of the `HOME`
    /// environment variable, the fallback of home inference. Fails exactly
    /// when the configuration's `target` is missing, not a string, or does
    /// not start with `tcp://`.
    pub fn translate(&self, worktree_root: &str, env_home: &str) -> (r: Result<
        AttachBundle,
        String,
    >)
        ensures
            ({
                let cfg = self.effective_config();
                let home = infer_home_spec(worktree_root@, env_home@);
                match tcp_address(cfg) {
                    Some(addr) => r is Ok && {
                        let b = r->Ok_0;
                        &&& b.configuration@ == output_config_spec(cfg, home, addr)
                        &&& pairs_view(b.envs) == env_pairs_spec(cfg)
                        &&& b.command@ == "lldb-dap-20"@
                        &&& b.arguments@.len() == 0
                        &&& b.request == self.effective_kind()
                    },
                    None => r is Err && r->Err_0@ == "missing or invalid `target` (expected tcp://HOST:PORT)"@,
                }
            }),
    {
        let ghost cfgv = self.effective_config();
        let empty = Json::Obj(Vec::new());
        let cfg: &Json = match &self.last_config {
            Some(c) => c,
            None => &empty,
        };
        proof {
            assert(json_view_entries(empty->Obj_0) =~= Seq::<(Seq<char>, JsonV)>::empty());
            assert(cfg@ == cfgv);
        }

        let home_string = infer_home_from_path(worktree_root, env_home);
        let home = str_chars(home_string.as_str());
        let ghost homev = infer_home_spec(worktree_root@, env_home@);

        let tcp_prefix = str_chars("tcp://");
        proof {
            reveal_strlit("tcp://");
        }
        let addr: Vec<char> = match cfg.get("target") {
            Some(j) => match j {
                Json::Str(s) => {
                    let sc = str_chars(s.as_str());
                    if sc.len() >= 6 && eq_at(&sc, &tcp_prefix, 0) {
                        proof {
                            assert(sc@.subrange(6, sc@.len() as int) =~= sc@.skip(6));
                            assert(tcp_address(cfgv) == Some(s@.skip(6)));
                        }
                        sub_chars(&sc, 6, sc.len())
                    } else {
                        proof {
                            assert(tcp_address(cfgv) is None);
                        }
                        return Err(String::from_str(
                            "missing or invalid `target` (expected tcp://HOST:PORT)",
                        ));
                    }
                },
                _ => {
                    return Err(String::from_str(
                        "missing or invalid `target` (expected tcp://HOST:PORT)",
                    ));
                },
            },
            None => {
                return Err(String::from_str(
                    "missing or invalid `target` (expected tcp://HOST:PORT)",
                ));
            },
        };
        let ghost addrv = tcp_address(cfgv)->Some_0;
        proof {
            assert(addr@ == addrv);
        }

        // Attach commands, environment pairs and init commands.
        let attach_cmds = build_attach_commands(cfg, &home, &addr);
        let envs = build_env_pairs(cfg);
        let mut inits: Vec<String> = match cfg.get("initCommands") {
            Some(j) => match j {
                Json::Arr(items) => collect_string_items(items),
                _ => Vec::new(),
            },
            None => Vec::new(),
        };
        proof {
            assert(strings_view(inits) =~= user_init_commands(cfgv));
        }
        let ghost inits0 = strings_view(inits);
        let mut smaps: Vec<String> = match cfg.get("pathMappings") {
            Some(j) => match j {
                Json::Arr(ms) => build_source_map_commands(ms, &home),
                _ => Vec::new(),
            },
            None => Vec::new(),
        };
        let ghost smapsv = strings_view(smaps);
        inits.append(&mut smaps);
        proof {
            assert(strings_view(inits) =~= inits0 + smapsv);
            assert(strings_view(inits) =~= init_commands_spec(cfgv, homev));
        }

        // The output configuration object, entry by entry.
        let mut entries: Vec<(String, Json)> = Vec::new();
        entries.push((String::from_str("request"), Json::Str(String::from_str("attach"))));
        entries.push((String::from_str("attachCommands"), strings_to_json(&attach_cmds)));
        proof {
            assert(json_view_entries(entries) =~= base_entries(cfgv, homev, addrv));
        }
        let ghost stage1 = json_view_entries(entries);

        match cfg.get("stopOnEntry") {
            Some(v) => {
                let c = v.deep_copy();
                entries.push((String::from_str("stopOnEntry"), c));
                proof {
                    assert(json_view_entries(entries) =~= stage1 + stop_entries(cfgv));
                }
            },
            None => {
                proof {
                    assert(json_view_entries(entries) =~= stage1 + stop_entries(cfgv));
                }
            },
        }
        let ghost stage2 = json_view_entries(entries);

        match cfg.get("pathMappings") {
            Some(j) => match j {
                Json::Arr(ms) => {
                    let expanded = build_expanded_mappings(ms, &home);
                    entries.push((String::from_str("pathMappings"), Json::Arr(expanded)));
                    proof {
                        assert(json_view_entries(entries) =~= stage2 + mapping_entries(
                            cfgv,
                            homev,
                        ));
                    }
                },
                _ => {
                    proof {
                        assert(json_view_entries(entries) =~= stage2 + mapping_entries(
                            cfgv,
                            homev,
                        ));
                    }
                },
            },
            None => {
                proof {
                    assert(json_view_entries(entries) =~= stage2 + mapping_entries(cfgv, homev));
                }
            },
        }
        let ghost stage3 = json_view_entries(entries);

        if inits.len() > 0 {
            let cmds = strings_to_json(&inits);
            entries.push((String::from_str("initCommands"), cmds));
            proof {
                assert(json_view_entries(entries) =~= stage3 + init_entries(cfgv, homev));
            }
        } else {
            proof {
                assert(init_commands_spec(cfgv, homev).len() == 0);
                assert(json_view_entries(entries) =~= stage3 + init_entries(cfgv, homev));
            }
        }

        let configuration = Json::Obj(entries);
        proof {
            assert(configuration@->Obj_0 =~= base_entries(cfgv, homev, addrv) + stop_entries(cfgv)
                + mapping_entries(cfgv, homev) + init_entries(cfgv, homev));
            assert(configuration@ == output_config_spec(cfgv, homev, addrv));
        }

        let request = match &self.last_kind {
            Some(k) => *k,
            None => RequestKind::Attach,
        };

        Ok(
            AttachBundle {
                configuration,
                envs,
                command: String::from_str("lldb-dap-20"),
                arguments: Vec::new(),
                request,
            },
        )
    }
}

/// The string entries of `items`, in order, as owned strings.
fn collect_string_items(items: &Vec<Json>) -> (r: Vec<String>)
    ensures
        strings_view(r) == string_items(json_view_items(*items)),
{
    let ghost iv = json_view_items(*items);
    let n = items.len();
    let mut out: Vec<String> = Vec::new();
    let mut i: usize = 0;
    proof {
        assert(iv.skip(0) =~= iv);
        assert(strings_view(out) + string_items(iv) =~= string_items(iv));
    }
    while i < n
        invariant
            i <= n,
            n == items@.len(),
            iv == json_view_items(*items),
            strings_view(out) + string_items(iv.skip(i as int)) == string_items(iv),
        decreases n - i,
    {
        let ghost s0 = strings_view(out);
        proof {
            assert(iv[i as int] == json_view(items@[i as int]));
            assert(iv.skip(i as int)[0] == iv[i as int]);
            assert(iv.skip(i as int).skip(1) =~= iv.skip(i + 1 as int));
        }
        match &items[i] {
            Json::Str(s) => {
                out.push(s.clone());
                proof {
                    assert(strings_view(out) =~= s0.push(s@));
                    assert(strings_view(out) + string_items(iv.skip(i + 1 as int)) =~= s0
                        + string_items(iv.skip(i as int)));
                }
            },
            _ => {
                proof {
                    assert(string_items(iv.skip(i as int)) == string_items(
                        iv.skip(i + 1 as int),
                    ));
                }
            },
        }
        i += 1;
    }
    proof {
        assert(iv.skip(n as int) =~= Seq::<JsonV>::empty());
        assert(strings_view(out) + string_items(iv.skip(n as int)) =~= strings_view(out));
    }
    out
}

/// The expansion of one string through the variable expander.
fn expand_string_chars(s: &String, home: &Vec<char>) -> (r: Vec<char>)
    ensures
        r@ == expand_spec(s@, home@),
{
    let sc = str_chars(s.as_str());
    expand_chars(&sc, home)
}

/// The ordered attach commands for `cfg`.
fn build_attach_commands(cfg: &Json, home: &Vec<char>, addr: &Vec<char>) -> (r: Vec<String>)
    ensures
        strings_view(r) == attach_commands_spec(cfg@, home@, addr@),
{
    let mut out: Vec<String> = Vec::new();
    match cfg.get("program") {
        Some(j) => match j {
            Json::Str(p) => {
                let e = expand_string_chars(p, home);
                let prefix = str_chars("target create ");
                let full = concat_chars(&prefix, &e);
                out.push(chars_to_string(&full));
                proof {
                    assert(strings_view(out) =~= program_commands(cfg@, home@));
                }
            },
            _ => {
                proof {
                    assert(strings_view(out) =~= program_commands(cfg@, home@));
                }
            },
        },
        None => {
            proof {
                assert(strings_view(out) =~= program_commands(cfg@, home@));
            }
        },
    }
    let ghost progv = strings_view(out);

    let gpre = str_chars("gdb-remote ");
    let gfull = concat_chars(&gpre, addr);
    out.push(chars_to_string(&gfull));
    proof {
        assert(strings_view(out) =~= progv + seq!["gdb-remote "@ + addr@]);
    }
    let ghost basev = strings_view(out);

    match cfg.get("attachCommands") {
        Some(j) => match j {
            Json::Arr(items) => {
                let mut more = collect_string_items(items);
                let ghost morev = strings_view(more);
                out.append(&mut more);
                proof {
                    assert(strings_view(out) =~= basev + morev);
                    assert(strings_view(out) =~= basev + user_attach_commands(cfg@));
                }
            },
            _ => {
                proof {
                    assert(strings_view(out) =~= basev + user_attach_commands(cfg@));
                }
            },
        },
        None => {
            proof {
                assert(strings_view(out) =~= basev + user_attach_commands(cfg@));
            }
        },
    }
    proof {
        assert(strings_view(out) =~= attach_commands_spec(cfg@, home@, addr@));
    }
    out
}

/// One mapping-object entry after expansion.
fn expand_entry_exec(e: &(String, Json), home: &Vec<char>) -> (r: (String, Json))
    ensures
        json_view_entry(r) == expand_mapping_entry(json_view_entry(*e), home@),
{
    let is_root = str_eq(e.0.as_str(), "localRoot") || str_eq(e.0.as_str(), "remoteRoot");
    if is_root {
        match &e.1 {
            Json::Str(s) => {
                let ec = expand_string_chars(s, home);
                (e.0.clone(), Json::Str(chars_to_string(&ec)))
            },
            _ => (e.0.clone(), e.1.deep_copy()),
        }
    } else {
        (e.0.clone(), e.1.deep_copy())
    }
}

/// The `pathMappings` array after expansion, order preserved.
fn build_expanded_mappings(ms: &Vec<Json>, home: &Vec<char>) -> (r: Vec<Json>)
    ensures
        json_view_items(r) == expanded_mappings(json_view_items(*ms), home@),
{
    let ghost mv = json_view_items(*ms);
    let n = ms.len();
    let mut out: Vec<Json> = Vec::new();
    let mut i: usize = 0;
    while i < n
        invariant
            i <= n,
            n == ms@.len(),
            mv == json_view_items(*ms),
            out@.len() == i,
            forall|k: int|
                0 <= k < i ==> json_view(#[trigger] out@[k]) == expand_mapping(mv[k], home@),
        decreases n - i,
    {
        proof {
            assert(mv[i as int] == json_view(ms@[i as int]));
        }
        match &ms[i] {
            Json::Obj(es) => {
                let ghost ev = json_view_entries(*es);
                let en = es.len();
                let mut newes: Vec<(String, Json)> = Vec::new();
                let mut j: usize = 0;
                while j < en
                    invariant
                        j <= en,
                        en == es@.len(),
                        ev == json_view_entries(*es),
                        newes@.len() == j,
                        forall|t: int|
                            0 <= t < j ==> json_view_entry(#[trigger] newes@[t])
                                == expand_mapping_entry(ev[t], home@),
                    decreases en - j,
                {
                    proof {
                        assert(ev[j as int] == json_view_entry(es@[j as int]));
                    }
                    let ne = expand_entry_exec(&es[j], home);
                    newes.push(ne);
                    j += 1;
                }
                let r1 = Json::Obj(newes);
                proof {
                    assert(json_view_entries(r1->Obj_0) =~= Seq::new(
                        ev.len(),
                        |t: int| expand_mapping_entry(ev[t], home@),
                    ));
                    assert(json_view(r1) == expand_mapping(mv[i as int], home@));
                }
                out.push(r1);
            },
            _ => {
                let c = ms[i].deep_copy();
                proof {
                    assert(json_view(c) == expand_mapping(mv[i as int], home@));
                }
                out.push(c);
            },
        }
        i += 1;
    }
    proof {
        assert(json_view_items(out) =~= expanded_mappings(mv, home@));
    }
    out
}

/// The auto-generated source-map commands for the mappings of `ms`.
fn build_source_map_commands(ms: &Vec<Json>, home: &Vec<char>) -> (r: Vec<String>)
    ensures
        strings_view(r) == source_map_commands(json_view_items(*ms), home@),
{
    let ghost mv = json_view_items(*ms);
    let n = ms.len();
    let mut out: Vec<String> = Vec::new();
    let mut i: usize = 0;
    proof {
        assert(mv.skip(0) =~= mv);
        assert(strings_view(out) + source_map_commands(mv, home@) =~= source_map_commands(
            mv,
            home@,
        ));
    }
    while i < n
        invariant
            i <= n,
            n == ms@.len(),
            mv == json_view_items(*ms),
            strings_view(out) + source_map_commands(mv.skip(i as int), home@)
                == source_map_commands(mv, home@),
        decreases n - i,
    {
        let ghost s0 = strings_view(out);
        proof {
            assert(mv[i as int] == json_view(ms@[i as int]));
            assert(mv.skip(i as int)[0] == mv[i as int]);
            assert(mv.skip(i as int).skip(1) =~= mv.skip(i + 1 as int));
        }
        let rr = ms[i].get("remoteRoot");
        let lr = ms[i].get("localRoot");
        match (rr, lr) {
            (Some(rj), Some(lj)) => match (rj, lj) {
                (Json::Str(rs), Json::Str(ls)) => {
                    let rc = expand_string_chars(rs, home);
                    let lc = expand_string_chars(ls, home);
                    let p1 = str_chars("settings set target.source-map ");
                    let sp = str_chars(" ");
                    let t1 = concat_chars(&p1, &rc);
                    let t2 = concat_chars(&t1, &sp);
                    let t3 = concat_chars(&t2, &lc);
                    out.push(chars_to_string(&t3));
                    proof {
                        assert(strings_view(out) =~= s0.push(
                            "settings set target.source-map "@ + expand_spec(rs@, home@) + " "@
                                + expand_spec(ls@, home@),
                        ));
                        assert(strings_view(out) + source_map_commands(
                            mv.skip(i + 1 as int),
                            home@,
                        ) =~= s0 + source_map_commands(mv.skip(i as int), home@));
                    }
                },
                _ => {
                    proof {
                        assert(source_map_commands(mv.skip(i as int), home@)
                            == source_map_commands(mv.skip(i + 1 as int), home@));
                    }
                },
            },
            _ => {
                proof {
                    assert(source_map_commands(mv.skip(i as int), home@) == source_map_commands(
                        mv.skip(i + 1 as int),
                        home@,
                    ));
                }
            },
        }
        i += 1;
    }
    proof {
        assert(mv.skip(n as int) =~= Seq::<JsonV>::empty());
        assert(strings_view(out) + source_map_commands(mv.skip(n as int), home@) =~= strings_view(
            out,
        ));
    }
    out
}

/// The forwarded environment pairs for `cfg`.
fn build_env_pairs(cfg: &Json) -> (r: Vec<(String, String)>)
    ensures
        pairs_view(r) == env_pairs_spec(cfg@),
{
    match cfg.get("env") {
        Some(j) => match j {
            Json::Obj(es) => {
                let ghost ev = json_view_entries(*es);
                let n = es.len();
                let mut out: Vec<(String, String)> = Vec::new();
                let mut i: usize = 0;
                while i < n
                    invariant
                        i <= n,
                        n == es@.len(),
                        ev == json_view_entries(*es),
                        out@.len() == i,
                        forall|k: int|
                            0 <= k < i ==> (#[trigger] out@[k]).0@ == ev[k].0 && out@[k].1@
                                == env_value_text(ev[k].1),
                    decreases n - i,
                {
                    proof {
                        assert(ev[i as int] == json_view_entry(es@[i as int]));
                    }
                    let key = es[i].0.clone();
                    let val = match &es[i].1 {
                        Json::Str(s) => s.clone(),
                        v => v.to_text(),
                    };
                    out.push((key, val));
                    i += 1;
                }
                proof {
                    assert(pairs_view(out) =~= env_pairs_spec(cfg@));
                }
                out
            },
            _ => {
                let out: Vec<(String, String)> = Vec::new();
                proof {
                    assert(pairs_view(out) =~= env_pairs_spec(cfg@));
                }
                out
            },
        },
        None => {
            let out: Vec<(String, String)> = Vec::new();
            proof {
                assert(pairs_view(out) =~= env_pairs_spec(cfg@));
            }
            out
        },
    }
}

/// The command strings as a JSON array value.
fn strings_to_json(v: &Vec<String>) -> (r: Json)
    ensures
        r@ == JsonV::Arr(strs_to_json(strings_view(*v))),
{
    let n = v.len();
    let mut items: Vec<Json> = Vec::new();
    let mut i: usize = 0;
    while i < n
        invariant
            i <= n,
            n == v@.len(),
            items@.len() == i,
            forall|k: int| 0 <= k < i ==> json_view(#[trigger] items@[k]) == JsonV::Str(v@[k]@),
        decreases n - i,
    {
        items.push(Json::Str(v[i].clone()));
        i += 1;
    }
    let r = Json::Arr(items);
    proof {
        assert(json_view_items(r->Arr_0) =~= strs_to_json(strings_view(*v)));
    }
    r
}

/// Error law: a configuration whose `target` is missing, is not a string,
/// or does not start with `tcp://` has no tcp address, so translation is
/// owed the validation error.
pub proof fn lemma_invalid_target_fails(cfg: JsonV)
    requires
        match get_field(cfg, "target"@) {
            Some(JsonV::Str(s)) => !(s.len() >= 6 && s.subrange(0, 6) == "tcp://"@),
            _ => true,
        },
    ensures
        tcp_address(cfg) is None,
{
}

/// Environment law: with no `env` field, no environment pairs are
/// forwarded.
pub proof fn lemma_env_absent_no_pairs(cfg: JsonV)
    requires
        get_field(cfg, "env"@) is None,
    ensures
        env_pairs_spec(cfg) == Seq::<(Seq<char>, Seq<char>)>::empty(),
{
}

/// Omission law: when `pathMappings` and `initCommands` are both absent,
/// the output configuration has no `initCommands` key at all.
pub proof fn lemma_no_init_commands_key(cfg: JsonV, home: Seq<char>, addr: Seq<char>)
    requires
        get_field(cfg, "initCommands"@) is None,
        get_field(cfg, "pathMappings"@) is None,
    ensures
        get_field(output_config_spec(cfg, home, addr), "initCommands"@) is None,
{
    reveal_strlit("request");
    reveal_strlit("attachCommands");
    reveal_strlit("stopOnEntry");
    reveal_strlit("initCommands");
    assert(init_commands_spec(cfg, home) =~= Seq::<Seq<char>>::empty());
    let entries = base_entries(cfg, home, addr) + stop_entries(cfg) + mapping_entries(cfg, home)
        + init_entries(cfg, home);
    let key = "initCommands"@;
    assert(entries[0].0 == "request"@);
    assert(entries[1].0 == "attachCommands"@);
    assert("request"@.len() == 7);
    assert("attachCommands"@.len() == 14);
    assert("stopOnEntry"@.len() == 11);
    assert(key.len() == 12);
    match get_field(cfg, "stopOnEntry"@) {
        Some(_) => {
            assert(entries.len() == 3);
            assert(entries[2].0 == "stopOnEntry"@);
        },
        None => {
            assert(entries.len() == 2);
        },
    }
    assert forall|i: int| 0 <= i < entries.len() implies (#[trigger] entries[i]).0 != key by {
        assert(entries[0].0 == "request"@);
        assert(entries[1].0 == "attachCommands"@);
    }
    crate::json::lemma_obj_get_absent(entries, key);
}

} // verus!
