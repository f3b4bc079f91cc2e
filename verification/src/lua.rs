//! Replacements applied to the `init.lua` template that drives Neovim: parameter
//! assignments for the LSP request under test and raw text substitutions.
use vstd::prelude::*;

use crate::text::{decimal, decimal_string, decimal_string_wide, occurs_at, replace_all, replaced};
use crate::path::{extension, join_path, joined, path_extension};
use crate::test_case::TestCase;
use crate::test_type::{method_name, TestType};
use crate::text::{repeated, repeat_str};
use crate::types::{Position, Range, ServerStartType, TestSetupError};

verus! {

/// A replacement to be made in the `init.lua` file. Each `Param*` variant assigns one
/// entry of the request's parameter table; `Other` is a raw text substitution.
#[derive(Debug)]
pub enum LuaReplacement {
    /// `params['textDocument'] = vim.lsp.util.make_text_document_params(0)`
    ParamTextDocument,
    /// `params['<name>'] = { line = <line>, character = <character> }`, the name
    /// defaulting to `position`
    ParamPosition { pos: Position, name: Option<String> },
    /// `params['range'] = { start = .., end = .. }`
    ParamRange(Range),
    /// An object passed as JSON and decoded into `params['<name>']`
    ParamDirect { name: String, json: String },
    /// An object passed as JSON whose listed fields are each copied into `params`
    ParamDestructure { name: String, fields: Vec<String>, json: String },
    /// A nested table `params['<name>']` built from the inner replacements
    ParamNested { name: String, fields: Vec<LuaReplacement> },
    /// Raw substitution of `from` by `to` anywhere in the file
    Other { from: String, to: String },
}

/// The guard line that checks `parent[name]` has not been assigned yet.
pub open spec fn guard_line(parent: Seq<char>, name: Seq<char>) -> Seq<char> {
    "\tassert(not "@ + parent + "['"@ + name + "'], \""@ + parent + "['"@ + name
        + "'] already set\")\n"@
}

/// The lines that assign position `pos` to `parent[name]`.
pub open spec fn position_lines(parent: Seq<char>, name: Seq<char>, pos: Position) -> Seq<char> {
    guard_line(parent, name) + "\t"@ + parent + "['"@ + name + "'] = { line = "@ + decimal(
        pos.line as nat,
    ) + ", character = "@ + decimal(pos.character as nat) + " }\n"@
}

/// The lines that copy each of `fields` from table `name` into `parent`.
pub open spec fn destructure_lines(parent: Seq<char>, name: Seq<char>, fields: Seq<String>) -> Seq<char>
    decreases fields.len(),
{
    if fields.len() == 0 {
        Seq::empty()
    } else {
        guard_line(parent, fields[0]@) + "\t"@ + parent + "['"@ + fields[0]@ + "'] = "@ + name
            + "['"@ + fields[0]@ + "']\n"@ + destructure_lines(parent, name, fields.drop_first())
    }
}

/// The parameter-table lines that replacement `r` contributes under table `parent`.
pub open spec fn params_of(r: LuaReplacement, parent: Seq<char>) -> Seq<char>
    decreases r,
{
    match r {
        LuaReplacement::ParamTextDocument => guard_line(parent, "textDocument"@) + "\t"@ + parent
            + "['textDocument'] = vim.lsp.util.make_text_document_params(0)\n"@,
        LuaReplacement::ParamPosition { pos, name } => position_lines(
            parent,
            match name {
                Some(n) => n@,
                None => "position"@,
            },
            pos,
        ),
        LuaReplacement::ParamRange(range) => guard_line(parent, "range"@) + "\tlocal range = {}\n"@
            + position_lines("range"@, "start"@, range.start) + position_lines(
            "range"@,
            "end"@,
            range.end,
        ) + "\t"@ + parent + "['range'] = range\n"@,
        LuaReplacement::ParamDirect { name, json } => "\tlocal "@ + name@ + "_json = [[\n"@ + json@
            + "\n]]\n"@ + guard_line(parent, name@) + "\t"@ + parent + "['"@ + name@
            + "'] = vim.json.decode("@ + name@ + "_json)\n"@,
        LuaReplacement::ParamDestructure { name, fields, json } => "\tlocal "@ + name@
            + "_json = [[\n"@ + json@ + "\n]]\n"@ + "\tlocal "@ + name@ + " = vim.json.decode("@
            + name@ + "_json)\n"@ + destructure_lines(parent, name@, fields@),
        LuaReplacement::ParamNested { name, fields } => guard_line(parent, name@) + "\tlocal "@
            + name@ + " = {}\n"@ + params_of_list(fields@, name@) + "\t"@ + parent + "['"@ + name@
            + "'] = "@ + name@ + "\n"@,
        LuaReplacement::Other { .. } => Seq::empty(),
    }
}

/// The parameter-table lines of each replacement in `rs`, in order.
pub open spec fn params_of_list(rs: Seq<LuaReplacement>, parent: Seq<char>) -> Seq<char>
    decreases rs,
{
    if rs.len() == 0 {
        Seq::empty()
    } else {
        params_of(rs[0], parent) + params_of_list(rs.drop_first(), parent)
    }
}

/// The raw substitutions that replacement `r` contributes.
pub open spec fn raw_of(r: LuaReplacement) -> Seq<(Seq<char>, Seq<char>)>
    decreases r,
{
    match r {
        LuaReplacement::ParamNested { fields, .. } => raw_of_list(fields@),
        LuaReplacement::Other { from, to } => seq![(from@, to@)],
        _ => Seq::empty(),
    }
}

/// The raw substitutions of each replacement in `rs`, in order.
pub open spec fn raw_of_list(rs: Seq<LuaReplacement>) -> Seq<(Seq<char>, Seq<char>)>
    decreases rs,
{
    if rs.len() == 0 {
        Seq::empty()
    } else {
        raw_of(rs[0]) + raw_of_list(rs.drop_first())
    }
}


proof fn lemma_params_of_list_push(rs: Seq<LuaReplacement>, r: LuaReplacement, parent: Seq<char>)
    ensures
        params_of_list(rs.push(r), parent) == params_of_list(rs, parent) + params_of(r, parent),
    decreases rs.len(),
{
    if rs.len() == 0 {
        assert(rs.push(r).drop_first() =~= rs);
    } else {
        lemma_params_of_list_push(rs.drop_first(), r, parent);
        assert(rs.push(r).drop_first() =~= rs.drop_first().push(r));
    }
}

proof fn lemma_raw_of_list_push(rs: Seq<LuaReplacement>, r: LuaReplacement)
    ensures
        raw_of_list(rs.push(r)) == raw_of_list(rs) + raw_of(r),
    decreases rs.len(),
{
    if rs.len() == 0 {
        assert(rs.push(r).drop_first() =~= rs);
    } else {
        lemma_raw_of_list_push(rs.drop_first(), r);
        assert(rs.push(r).drop_first() =~= rs.drop_first().push(r));
    }
}

proof fn lemma_destructure_lines_push(parent: Seq<char>, name: Seq<char>, fs: Seq<String>, f: String)
    ensures
        destructure_lines(parent, name, fs.push(f)) == destructure_lines(parent, name, fs)
            + destructure_lines(parent, name, seq![f]),
    decreases fs.len(),
{
    if fs.len() == 0 {
        assert(fs.push(f) =~= seq![f]);
    } else {
        lemma_destructure_lines_push(parent, name, fs.drop_first(), f);
        assert(fs.push(f).drop_first() =~= fs.drop_first().push(f));
    }
    assert(seq![f].drop_first() =~= Seq::<String>::empty());
}

/// How deeply `r` nests tables of replacements.
pub open spec fn depth(r: LuaReplacement) -> nat
    decreases r,
{
    match r {
        LuaReplacement::ParamNested { fields, .. } => 1 + depth_list(fields@),
        _ => 0,
    }
}

/// The greatest nesting depth among `rs`.
pub open spec fn depth_list(rs: Seq<LuaReplacement>) -> nat
    decreases rs,
{
    if rs.len() == 0 {
        0
    } else {
        let a = depth(rs[0]);
        let b = depth_list(rs.drop_first());
        if a >= b { a } else { b }
    }
}

proof fn lemma_depth_list_bound(rs: Seq<LuaReplacement>, i: int)
    requires
        0 <= i < rs.len(),
    ensures
        depth(rs[i]) <= depth_list(rs),
    decreases rs.len(),
{
    if i > 0 {
        lemma_depth_list_bound(rs.drop_first(), i - 1);
    }
}

/// The raw substitutions of a document, as pairs of character sequences.
pub open spec fn raw_view(raw: Seq<(String, String)>) -> Seq<(Seq<char>, Seq<char>)> {
    raw.map_values(|p: (String, String)| (p.0@, p.1@))
}

/// The combined effect of a series of `LuaReplacement`s: the lines assigning the
/// request's parameter table, and the raw substitutions, in the order they were given.
#[derive(Debug)]
pub struct LuaDocumentReplacement {
    /// Lines that build the parameter table, substituted for `PARAM_ASSIGN`.
    pub params: String,
    /// Raw substitutions `(from, to)` applied anywhere in the file.
    pub raw: Vec<(String, String)>,
}

fn push_guard(out: &mut String, parent: &str, name: &str)
    ensures
        final(out)@ == old(out)@ + guard_line(parent@, name@),
{
    out.append("\tassert(not ");
    out.append(parent);
    out.append("['");
    out.append(name);
    out.append("'], \"");
    out.append(parent);
    out.append("['");
    out.append(name);
    out.append("'] already set\")\n");
}

fn push_position(out: &mut String, parent: &str, name: &str, pos: Position)
    ensures
        final(out)@ == old(out)@ + position_lines(parent@, name@, pos),
{
    push_guard(out, parent, name);
    out.append("\t");
    out.append(parent);
    out.append("['");
    out.append(name);
    out.append("'] = { line = ");
    let l = decimal_string(pos.line as u64);
    out.append(l.as_str());
    out.append(", character = ");
    let c = decimal_string(pos.character as u64);
    out.append(c.as_str());
    out.append(" }\n");
}

fn push_json_local(out: &mut String, name: &str, json: &str)
    ensures
        final(out)@ == old(out)@ + "\tlocal "@ + name@ + "_json = [[\n"@ + json@ + "\n]]\n"@,
{
    out.append("\tlocal ");
    out.append(name);
    out.append("_json = [[\n");
    out.append(json);
    out.append("\n]]\n");
}

fn push_text_document(out: &mut String, parent: &str)
    ensures
        final(out)@ == old(out)@ + params_of(LuaReplacement::ParamTextDocument, parent@),
{
    let ghost o = out@;
    push_guard(out, parent, "textDocument");
    out.append("\t");
    out.append(parent);
    out.append("['textDocument'] = vim.lsp.util.make_text_document_params(0)\n");
    assert(out@ =~= o + params_of(LuaReplacement::ParamTextDocument, parent@));
}

fn push_range(out: &mut String, parent: &str, range: Range)
    ensures
        final(out)@ == old(out)@ + params_of(LuaReplacement::ParamRange(range), parent@),
{
    let ghost o = out@;
    push_guard(out, parent, "range");
    out.append("\tlocal range = {}\n");
    push_position(out, "range", "start", range.start);
    push_position(out, "range", "end", range.end);
    out.append("\t");
    out.append(parent);
    out.append("['range'] = range\n");
    assert(out@ =~= o + params_of(LuaReplacement::ParamRange(range), parent@));
}

fn push_direct(out: &mut String, parent: &str, name: &str, json: &str)
    ensures
        final(out)@ == old(out)@ + "\tlocal "@ + name@ + "_json = [[\n"@ + json@ + "\n]]\n"@
            + guard_line(parent@, name@) + "\t"@ + parent@ + "['"@ + name@
            + "'] = vim.json.decode("@ + name@ + "_json)\n"@,
{
    let ghost o = out@;
    push_json_local(out, name, json);
    push_guard(out, parent, name);
    out.append("\t");
    out.append(parent);
    out.append("['");
    out.append(name);
    out.append("'] = vim.json.decode(");
    out.append(name);
    out.append("_json)\n");
    assert(out@ =~= o + "\tlocal "@ + name@ + "_json = [[\n"@ + json@ + "\n]]\n"@
            + guard_line(parent@, name@) + "\t"@ + parent@ + "['"@ + name@
            + "'] = vim.json.decode("@ + name@ + "_json)\n"@);
}

fn push_destructure(out: &mut String, parent: &str, name: &str, fields: &Vec<String>, json: &str)
    ensures
        final(out)@ == old(out)@ + "\tlocal "@ + name@ + "_json = [[\n"@ + json@ + "\n]]\n"@
            + "\tlocal "@ + name@ + " = vim.json.decode("@ + name@ + "_json)\n"@
            + destructure_lines(parent@, name@, fields@),
{
    let ghost o = out@;
    push_json_local(out, name, json);
    out.append("\tlocal ");
    out.append(name);
    out.append(" = vim.json.decode(");
    out.append(name);
    out.append("_json)\n");
    let ghost base = out@;
    let mut i: usize = 0;
    while i < fields.len()
        invariant
            i <= fields.len(),
            out@ == base + destructure_lines(parent@, name@, fields@.take(i as int)),
        decreases fields.len() - i,
    {
        let f = fields[i].as_str();
        push_guard(out, parent, f);
        out.append("\t");
        out.append(parent);
        out.append("['");
        out.append(f);
        out.append("'] = ");
        out.append(name);
        out.append("['");
        out.append(f);
        out.append("']\n");
        proof {
            lemma_destructure_lines_push(parent@, name@, fields@.take(i as int), fields@[i as int]);
            assert(fields@.take(i + 1) =~= fields@.take(i as int).push(fields@[i as int]));
            let one = seq![fields@[i as int]];
            assert(one.drop_first() =~= Seq::<String>::empty());
            assert(destructure_lines(parent@, name@, one.drop_first()) == Seq::<char>::empty());
            assert(out@ =~= base + destructure_lines(parent@, name@, fields@.take(i + 1)));
        }
        i = i + 1;
    }
    assert(fields@.take(fields.len() as int) =~= fields@);
    assert(out@ =~= o + "\tlocal "@ + name@ + "_json = [[\n"@ + json@ + "\n]]\n"@
        + "\tlocal "@ + name@ + " = vim.json.decode("@ + name@ + "_json)\n"@
        + destructure_lines(parent@, name@, fields@));
}

impl LuaReplacement {
    /// Adds this replacement's parameter lines (under table `parent_name`, by default
    /// `params`) and raw substitutions to `doc`.
    #[verifier::rlimit(80)]
    #[verifier::spinoff_prover]
    pub fn perform_replacement(&self, doc: &mut LuaDocumentReplacement, parent_name: Option<&str>)
        ensures
            final(doc).params@ == old(doc).params@ + params_of(
                *self,
                match parent_name {
                    Some(p) => p@,
                    None => "params"@,
                },
            ),
            raw_view(final(doc).raw@) == raw_view(old(doc).raw@) + raw_of(*self),
        decreases depth(*self),
    {
        let parent: &str = match parent_name {
            Some(p) => p,
            None => "params",
        };
        let ghost old_raw = raw_view(doc.raw@);
        let ghost p0 = doc.params@;
        match self {
            LuaReplacement::ParamTextDocument => {
                push_text_document(&mut doc.params, parent);
                assert(raw_view(doc.raw@) =~= old_raw + raw_of(*self));
            },
            LuaReplacement::ParamPosition { pos, name } => {
                let n: &str = match name {
                    Some(n) => n.as_str(),
                    None => "position",
                };
                push_position(&mut doc.params, parent, n, *pos);
                assert(raw_view(doc.raw@) =~= old_raw + raw_of(*self));
            },
            LuaReplacement::ParamRange(range) => {
                push_range(&mut doc.params, parent, *range);
                assert(raw_view(doc.raw@) =~= old_raw + raw_of(*self));
            },
            LuaReplacement::ParamDirect { name, json } => {
                push_direct(&mut doc.params, parent, name.as_str(), json.as_str());
                assert(raw_view(doc.raw@) =~= old_raw + raw_of(*self));
            },
            LuaReplacement::ParamDestructure { name, fields, json } => {
                push_destructure(&mut doc.params, parent, name.as_str(), fields, json.as_str());
                assert(raw_view(doc.raw@) =~= old_raw + raw_of(*self));
            },
            LuaReplacement::ParamNested { name, fields } => {
                push_guard(&mut doc.params, parent, name.as_str());
                doc.params.append("\tlocal ");
                doc.params.append(name.as_str());
                doc.params.append(" = {}\n");
                let ghost base = doc.params@;
                let mut i: usize = 0;
                while i < fields.len()
                    invariant
                        i <= fields.len(),
                        doc.params@ == base + params_of_list(fields@.take(i as int), name@),
                        raw_view(doc.raw@) == old_raw + raw_of_list(fields@.take(i as int)),
                        *self == (LuaReplacement::ParamNested { name: *name, fields: *fields }),
                    decreases fields.len() - i,
                {
                    proof {
                        lemma_depth_list_bound(fields@, i as int);
                    }
                    fields[i].perform_replacement(doc, Some(name.as_str()));
                    proof {
                        lemma_params_of_list_push(fields@.take(i as int), fields@[i as int], name@);
                        lemma_raw_of_list_push(fields@.take(i as int), fields@[i as int]);
                        assert(fields@.take(i + 1) =~= fields@.take(i as int).push(fields@[i as int]));
                    }
                    i = i + 1;
                }
                assert(fields@.take(fields.len() as int) =~= fields@);
                doc.params.append("\t");
                doc.params.append(parent);
                doc.params.append("['");
                doc.params.append(name.as_str());
                doc.params.append("'] = ");
                doc.params.append(name.as_str());
                doc.params.append("\n");
                assert(doc.params@ =~= p0 + params_of(*self, parent@));
            },
            LuaReplacement::Other { from, to } => {
                doc.raw.push((from.clone(), to.clone()));
                assert(raw_view(doc.raw@) =~= old_raw + raw_of(*self));
                assert(doc.params@ =~= p0 + params_of(*self, parent@));
            },
        }
    }
}


/// The text of `doc` after applying each raw substitution of `raw` in order.
pub open spec fn apply_raw(doc: Seq<char>, raw: Seq<(Seq<char>, Seq<char>)>) -> Seq<char>
    decreases raw.len(),
{
    if raw.len() == 0 {
        doc
    } else {
        apply_raw(replaced(doc, raw[0].0, raw[0].1), raw.drop_first())
    }
}

/// The document that results from applying the raw substitutions `raw` in order and
/// then putting the parameter lines `params` in place of `PARAM_ASSIGN`.
pub open spec fn filled(doc: Seq<char>, raw: Seq<(Seq<char>, Seq<char>)>, params: Seq<char>) -> Seq<char> {
    replaced(apply_raw(doc, raw), "PARAM_ASSIGN"@, params)
}

proof fn lemma_apply_raw_push(doc: Seq<char>, raw: Seq<(Seq<char>, Seq<char>)>, p: (Seq<char>, Seq<char>))
    ensures
        apply_raw(doc, raw.push(p)) == replaced(apply_raw(doc, raw), p.0, p.1),
    decreases raw.len(),
{
    if raw.len() == 0 {
        assert(raw.push(p).drop_first() =~= raw);
        assert(raw.push(p)[0] == p);
        assert(apply_raw(replaced(doc, p.0, p.1), raw) == replaced(doc, p.0, p.1));
    } else {
        lemma_apply_raw_push(replaced(doc, raw[0].0, raw[0].1), raw.drop_first(), p);
        assert(raw.push(p).drop_first() =~= raw.drop_first().push(p));
        assert(raw.push(p)[0] == raw[0]);
    }
}

impl LuaDocumentReplacement {
    /// Collects the parameter lines (under `params`) and raw substitutions of `repls`.
    pub fn new(repls: &Vec<LuaReplacement>) -> (r: LuaDocumentReplacement)
        ensures
            r.params@ == params_of_list(repls@, "params"@),
            raw_view(r.raw@) == raw_of_list(repls@),
    {
        let mut doc = LuaDocumentReplacement { params: String::new(), raw: Vec::new() };
        let mut i: usize = 0;
        assert(raw_view(doc.raw@) =~= Seq::<(Seq<char>, Seq<char>)>::empty());
        while i < repls.len()
            invariant
                i <= repls.len(),
                doc.params@ == params_of_list(repls@.take(i as int), "params"@),
                raw_view(doc.raw@) == raw_of_list(repls@.take(i as int)),
            decreases repls.len() - i,
        {
            repls[i].perform_replacement(&mut doc, None);
            proof {
                lemma_params_of_list_push(repls@.take(i as int), repls@[i as int], "params"@);
                lemma_raw_of_list_push(repls@.take(i as int), repls@[i as int]);
                assert(repls@.take(i + 1) =~= repls@.take(i as int).push(repls@[i as int]));
            }
            i = i + 1;
        }
        assert(repls@.take(repls.len() as int) =~= repls@);
        doc
    }

    /// Applies the raw substitutions in order to `doc`, then puts the parameter lines
    /// in place of `PARAM_ASSIGN`.
    pub fn fill_document(&self, doc: String) -> (r: String)
        ensures
            r@ == filled(doc@, raw_view(self.raw@), self.params@),
    {
        let mut d = doc;
        let ghost d0 = doc@;
        let mut i: usize = 0;
        while i < self.raw.len()
            invariant
                i <= self.raw.len(),
                d@ == apply_raw(d0, raw_view(self.raw@).take(i as int)),
            decreases self.raw.len() - i,
        {
            let next = replace_all(d.as_str(), self.raw[i].0.as_str(), self.raw[i].1.as_str());
            proof {
                let rv = raw_view(self.raw@);
                lemma_apply_raw_push(d0, rv.take(i as int), rv[i as int]);
                assert(rv.take(i + 1) =~= rv.take(i as int).push(rv[i as int]));
            }
            d = next;
            i = i + 1;
        }
        assert(raw_view(self.raw@).take(self.raw.len() as int) =~= raw_view(self.raw@));
        replace_all(d.as_str(), "PARAM_ASSIGN", self.params.as_str())
    }
}

/// The `PROGRESS_THRESHOLD` value: one for a simple start, else the given threshold.
pub open spec fn progress_threshold_text(start_type: ServerStartType) -> Seq<char> {
    match start_type {
        ServerStartType::Simple => "1"@,
        ServerStartType::Progress(threshold, _) => decimal(threshold as nat),
    }
}

/// The `PROGRESS_THRESHOLD` value for a server that starts as `start_type`.
pub fn progress_threshold(start_type: &ServerStartType) -> (r: String)
    ensures
        r@ == progress_threshold_text(*start_type),
{
    match start_type {
        ServerStartType::Simple => String::from_str("1"),
        ServerStartType::Progress(threshold, _) => decimal_string(*threshold as u64),
    }
}

/// The Lua code that invokes the request under test: at once for a simple start,
/// or from the `$/progress` handler when the server reports the end of `token`.
pub open spec fn lsp_action_text(start_type: ServerStartType) -> Seq<char> {
    match start_type {
        ServerStartType::Simple => "check_progress_result()\n"@ + repeated(" "@, 16) + "vim.cmd('qa!')"@,
        ServerStartType::Progress(_, token) => "vim.lsp.handlers[\"$/progress\"] = function(_, result, _)\n                    if client then\n                        if result.value.kind == \"end\" and result.token == \""@ + token@ + "\" then\n                            client.initialized = true\n                            check_progress_result()\n                        end\n                    end\n                end"@,
    }
}

/// With a progress start, the action does not depend on the progress threshold, and
/// it acts on the end of the progress whose token is the one given: it tests
/// `result.value.kind == "end"` and `result.token == "<token>"`.
pub proof fn lemma_progress_action(k1: u32, k2: u32, token: String)
    ensures
        lsp_action_text(ServerStartType::Progress(k1, token)) == lsp_action_text(
            ServerStartType::Progress(k2, token),
        ),
        exists|i: int|
            occurs_at(
                lsp_action_text(ServerStartType::Progress(k1, token)),
                "result.token == \""@ + token@ + "\""@,
                i,
            ),
        exists|i: int|
            occurs_at(lsp_action_text(ServerStartType::Progress(k1, token)), "result.value.kind == \"end\""@, i),
{
    let pre = "vim.lsp.handlers[\"$/progress\"] = function(_, result, _)\n                    if client then\n                        if result.value.kind == \"end\" and result.token == \""@;
    let suf = "\" then\n                            client.initialized = true\n                            check_progress_result()\n                        end\n                    end\n                end"@;
    reveal_strlit("vim.lsp.handlers[\"$/progress\"] = function(_, result, _)\n                    if client then\n                        if result.value.kind == \"end\" and result.token == \"");
    reveal_strlit("\" then\n                            client.initialized = true\n                            check_progress_result()\n                        end\n                    end\n                end");
    reveal_strlit("result.token == \"");
    reveal_strlit("\"");
    reveal_strlit("result.value.kind == \"end\"");
    let text = lsp_action_text(ServerStartType::Progress(k1, token));
    assert(text == pre + token@ + suf);
    assert(pre.len() == 166);
    let pat = "result.token == \""@ + token@ + "\""@;
    assert(text.subrange(149, 149 + pat.len() as int) =~= pat);
    assert(occurs_at(text, pat, 149));
    let kind = "result.value.kind == \"end\""@;
    assert(text.subrange(118, 118 + kind.len() as int) =~= kind);
    assert(occurs_at(text, kind, 118));
}

/// With a progress start, the action never quits Neovim: it holds no `qa!`, where the
/// token holds none.
pub proof fn lemma_progress_action_never_quits(k: u32, token: String)
    requires
        forall|i: int| !occurs_at(token@, "qa!"@, i),
    ensures
        forall|i: int| !occurs_at(lsp_action_text(ServerStartType::Progress(k, token)), "qa!"@, i),
{
    let pre = "vim.lsp.handlers[\"$/progress\"] = function(_, result, _)\n                    if client then\n                        if result.value.kind == \"end\" and result.token == \""@;
    let suf = "\" then\n                            client.initialized = true\n                            check_progress_result()\n                        end\n                    end\n                end"@;
    let q = "qa!"@;
    assert(forall|j: int| 0 <= j < pre.len() ==> #[trigger] pre[j] != 'q') by {
        reveal_strlit("vim.lsp.handlers[\"$/progress\"] = function(_, result, _)\n                    if client then\n                        if result.value.kind == \"end\" and result.token == \"");
    }
    assert(forall|j: int| 0 <= j < suf.len() ==> #[trigger] suf[j] != 'q') by {
        reveal_strlit("\" then\n                            client.initialized = true\n                            check_progress_result()\n                        end\n                    end\n                end");
    }
    assert(suf.len() > 0 && suf[0] == '"') by {
        reveal_strlit("\" then\n                            client.initialized = true\n                            check_progress_result()\n                        end\n                    end\n                end");
    }
    assert(q.len() == 3 && q[0] == 'q' && q[1] == 'a' && q[2] == '!') by {
        reveal_strlit("qa!");
    }
    let t = token@;
    let text = lsp_action_text(ServerStartType::Progress(k, token));
    assert(text == pre + t + suf);
    assert forall|i: int| !occurs_at(text, q, i) by {
        if occurs_at(text, q, i) {
            assert(text.subrange(i, i + 3)[0] == text[i]);
            assert(text.subrange(i, i + 3)[1] == text[i + 1]);
            assert(text.subrange(i, i + 3)[2] == text[i + 2]);
            let a = pre.len() as int;
            let b = a + t.len();
            if i < a {
                assert(text[i] == pre[i]);
            } else if i >= b {
                assert(text[i] == suf[i - b]);
            } else if i + 1 == b {
                assert(text[i + 1] == suf[0]);
            } else if i + 2 == b {
                assert(text[i + 2] == suf[0]);
            } else {
                assert(t.subrange(i - a, i - a + 3) =~= text.subrange(i, i + 3));
                assert(occurs_at(t, q, i - a));
            }
        }
    }
}

/// The Lua code that invokes the request under test for a server that starts as
/// `start_type`.
pub fn invoke_lsp_action(start_type: &ServerStartType) -> (r: String)
    ensures
        r@ == lsp_action_text(*start_type),
{
    match start_type {
        ServerStartType::Simple => {
            let mut r = String::from_str("check_progress_result()\n");
            let pad = repeat_str(" ", 16);
            r.append(pad.as_str());
            r.append("vim.cmd('qa!')");
            r
        },
        ServerStartType::Progress(_, token) => {
            let mut r = String::from_str("vim.lsp.handlers[\"$/progress\"] = function(_, result, _)\n                    if client then\n                        if result.value.kind == \"end\" and result.token == \"");
            r.append(token.as_str());
            r.append("\" then\n                            client.initialized = true\n                            check_progress_result()\n                        end\n                    end\n                end");
            r
        },
    }
}

/// Each command quoted and followed by `,` and a newline.
pub open spec fn commands_text(cmds: Seq<String>) -> Seq<char>
    decreases cmds.len(),
{
    if cmds.len() == 0 {
        Seq::empty()
    } else {
        commands_text(cmds.drop_last()) + "\""@ + cmds.last()@ + "\",\n"@
    }
}

/// The `COMMANDS` text that lists the commands a client advertises, if any.
pub fn commands_string(commands: Option<&Vec<String>>) -> (r: String)
    ensures
        r@ == match commands {
            Some(c) => commands_text(c@),
            None => Seq::empty(),
        },
{
    match commands {
        None => String::new(),
        Some(cmds) => {
            let mut r = String::new();
            let mut i: usize = 0;
            while i < cmds.len()
                invariant
                    i <= cmds.len(),
                    r@ == commands_text(cmds@.take(i as int)),
                decreases cmds.len() - i,
            {
                r.append("\"");
                r.append(cmds[i].as_str());
                r.append("\",\n");
                assert(cmds@.take(i + 1).drop_last() =~= cmds@.take(i as int));
                i = i + 1;
            }
            assert(cmds@.take(cmds.len() as int) =~= cmds@);
            r
        },
    }
}


/// Paths of a test's directory, as text: the test directory itself, the files the
/// Lua side writes, and the source directory (with a trailing separator).
#[derive(Debug, Clone)]
pub struct TestPaths {
    pub root: String,
    pub results: String,
    pub error: String,
    pub log: String,
    pub empty: String,
    pub benchmark: String,
    pub source_root: String,
    pub timeout: String,
    pub init_lua: String,
}

/// The directory of test `test_id` under the temporary directory `tmp_dir`:
/// `<tmp_dir>/lspresso-shot/<test_id>`.
pub open spec fn test_root(tmp_dir: Seq<char>, test_id: Seq<char>) -> Seq<char> {
    joined(joined(tmp_dir, "lspresso-shot"@), test_id)
}

impl TestPaths {
    /// The paths of test `test_id` under the temporary directory `tmp_dir`: its
    /// directory, `results.json`, `error.txt`, `log.txt`, `empty`, `benchmark.txt`,
    /// `timeout.txt` and `init.lua` in it, and its `src/` directory.
    pub fn new(tmp_dir: &str, test_id: &str) -> (r: TestPaths)
        ensures
            r.root@ == test_root(tmp_dir@, test_id@),
            r.results@ == joined(test_root(tmp_dir@, test_id@), "results.json"@),
            r.error@ == joined(test_root(tmp_dir@, test_id@), "error.txt"@),
            r.log@ == joined(test_root(tmp_dir@, test_id@), "log.txt"@),
            r.empty@ == joined(test_root(tmp_dir@, test_id@), "empty"@),
            r.benchmark@ == joined(test_root(tmp_dir@, test_id@), "benchmark.txt"@),
            r.source_root@ == joined(joined(test_root(tmp_dir@, test_id@), "src"@), ""@),
            r.timeout@ == joined(test_root(tmp_dir@, test_id@), "timeout.txt"@),
            r.init_lua@ == joined(test_root(tmp_dir@, test_id@), "init.lua"@),
    {
        let base = join_path(tmp_dir, "lspresso-shot");
        let root = join_path(base.as_str(), test_id);
        let src = join_path(root.as_str(), "src");
        TestPaths {
            results: join_path(root.as_str(), "results.json"),
            error: join_path(root.as_str(), "error.txt"),
            log: join_path(root.as_str(), "log.txt"),
            empty: join_path(root.as_str(), "empty"),
            benchmark: join_path(root.as_str(), "benchmark.txt"),
            source_root: join_path(src.as_str(), ""),
            timeout: join_path(root.as_str(), "timeout.txt"),
            init_lua: join_path(root.as_str(), "init.lua"),
            root,
        }
    }

    /// The path of the source file `file` of the test: `<root>/src/<file>`.
    pub fn source_file(&self, file: &str) -> (r: String)
        ensures
            r@ == joined(joined(self.root@, "src"@), file@),
    {
        let src = join_path(self.root.as_str(), "src");
        join_path(src.as_str(), file)
    }
}

/// The pieces the `init.lua` file is assembled from.
#[derive(Debug, Clone)]
pub struct LuaTemplates {
    pub helpers: String,
    pub diagnostic_autocmd: String,
    pub state_or_response_action: String,
    pub semantic_tokens_full_delta_action: String,
    pub request_action: String,
    pub attach: String,
}

/// The raw substitutions common to all test types, given the extension `ext` of
/// the source file.
pub open spec fn standard_pairs(
    tc: TestCase,
    test_type: TestType,
    paths: TestPaths,
    ext: Seq<char>,
) -> Seq<(Seq<char>, Seq<char>)> {
    seq![
        ("REQUEST_METHOD"@, method_name(test_type)),
        ("RESULTS_FILE"@, paths.results@),
        ("EXECUTABLE_PATH"@, tc.executable_path@),
        ("ROOT_PATH"@, paths.root@),
        ("ERROR_PATH"@, paths.error@),
        ("LOG_PATH"@, paths.log@),
        ("EMPTY_PATH"@, paths.empty@),
        ("BENCHMARK_PATH"@, paths.benchmark@),
        ("FILE_EXTENSION"@, ext),
        ("COMMANDS"@, Seq::empty()),
        ("PROGRESS_THRESHOLD"@, progress_threshold_text(tc.start_type)),
        ("PARENT_PATH"@, paths.source_root@),
        ("TIMEOUT_PATH"@, paths.timeout@),
        ("TIMEOUT_MS"@, decimal(tc.timeout_ns as nat / 1_000_000)),
    ]
}

fn push_other(v: &mut Vec<LuaReplacement>, from: &str, to: String)
    ensures
        final(v)@.len() == old(v)@.len() + 1,
        final(v)@.take(old(v)@.len() as int) == old(v)@,
        raw_of_list(final(v)@) == raw_of_list(old(v)@).push((from@, to@)),
        params_of_list(final(v)@, "params"@) == params_of_list(old(v)@, "params"@),
{
    let ghost before = v@;
    let r = LuaReplacement::Other { from: String::from_str(from), to };
    proof {
        lemma_raw_of_list_push(before, r);
        lemma_params_of_list_push(before, r, "params"@);
        assert(raw_of(r) =~= seq![(from@, r->to@)]);
    }
    v.push(r);
    assert(v@.take(before.len() as int) =~= before);
    assert(params_of_list(v@, "params"@) =~= params_of_list(before, "params"@));
}

/// The substitutions common to all test types: request method, the test's paths,
/// the source file's extension, progress threshold and timeout. Fails when the source
/// file has no extension.
pub fn get_standard_replacements(
    test_case: &TestCase,
    test_type: TestType,
    paths: &TestPaths,
) -> (r: Result<Vec<LuaReplacement>, TestSetupError>)
    ensures
        match r {
            Ok(v) => extension(test_case.source_file.path@) matches Some(ext)
                && v@.len() == 14
                && raw_of_list(v@) == standard_pairs(*test_case, test_type, *paths, ext)
                && params_of_list(v@, "params"@) == Seq::<char>::empty(),
            Err(e) => {
                &&& extension(test_case.source_file.path@) is None
                &&& e matches TestSetupError::MissingFileExtension(p)
                &&& p@ == test_case.source_file.path@
            },
        },
{
    let ext = match path_extension(test_case.source_file.path.as_str()) {
        Some(e) => e,
        None => {
            return Err(TestSetupError::MissingFileExtension(test_case.source_file.path.clone()));
        },
    };
    let ghost e = ext@;
    let mut v: Vec<LuaReplacement> = Vec::new();
    assert(raw_of_list(v@) =~= Seq::<(Seq<char>, Seq<char>)>::empty());
    push_other(&mut v, "REQUEST_METHOD", test_type.to_string());
    push_other(&mut v, "RESULTS_FILE", paths.results.clone());
    push_other(&mut v, "EXECUTABLE_PATH", test_case.executable_path.clone());
    push_other(&mut v, "ROOT_PATH", paths.root.clone());
    push_other(&mut v, "ERROR_PATH", paths.error.clone());
    push_other(&mut v, "LOG_PATH", paths.log.clone());
    push_other(&mut v, "EMPTY_PATH", paths.empty.clone());
    push_other(&mut v, "BENCHMARK_PATH", paths.benchmark.clone());
    push_other(&mut v, "FILE_EXTENSION", ext);
    push_other(&mut v, "COMMANDS", String::new());
    push_other(&mut v, "PROGRESS_THRESHOLD", progress_threshold(&test_case.start_type));
    push_other(&mut v, "PARENT_PATH", paths.source_root.clone());
    push_other(&mut v, "TIMEOUT_PATH", paths.timeout.clone());
    push_other(&mut v, "TIMEOUT_MS", decimal_string_wide(test_case.timeout_ns / 1_000_000));
    assert(raw_of_list(v@) =~= standard_pairs(*test_case, test_type, *paths, e));
    Ok(v)
}

/// The template text for `test_type`: helpers, the action that issues the request
/// and the attach logic, with `LSP_ACTION` filled in for the server's start type
/// (left empty for published diagnostics, which an autocmd collects).
pub open spec fn init_template(test_type: TestType, start_type: ServerStartType, t: LuaTemplates) -> Seq<char> {
    let action = match test_type {
        TestType::PublishDiagnostics => t.diagnostic_autocmd@,
        TestType::Formatting | TestType::WorkspaceExecuteCommand => t.state_or_response_action@,
        TestType::SemanticTokensFullDelta => t.semantic_tokens_full_delta_action@,
        _ => t.request_action@,
    };
    let raw = t.helpers@ + action + t.attach@;
    match test_type {
        TestType::PublishDiagnostics => replaced(raw, "LSP_ACTION"@, ""@),
        _ => replaced(raw, "LSP_ACTION"@, lsp_action_text(start_type)),
    }
}

/// Construct the contents of an `init.lua` file to test an lsp request corresponding
/// to `test_type`: the standard substitutions are added after `replacements`, and all
/// of them are applied to the template for `test_type`.
pub fn get_init_dot_lua(
    test_case: &TestCase,
    test_type: TestType,
    replacements: &mut Vec<LuaReplacement>,
    paths: &TestPaths,
    templates: &LuaTemplates,
) -> (r: Result<String, TestSetupError>)
    ensures
        match r {
            Ok(doc) => extension(test_case.source_file.path@) matches Some(ext)
                && final(replacements)@.len() == old(replacements)@.len() + 14
                && final(replacements)@.take(old(replacements)@.len() as int) == old(replacements)@
                && raw_of_list(final(replacements)@) == raw_of_list(old(replacements)@)
                    + standard_pairs(*test_case, test_type, *paths, ext)
                && params_of_list(final(replacements)@, "params"@) == params_of_list(
                    old(replacements)@,
                    "params"@,
                )
                && doc@ == filled(
                    init_template(test_type, test_case.start_type, *templates),
                    raw_of_list(final(replacements)@),
                    params_of_list(final(replacements)@, "params"@),
                ),
            Err(e) => {
                &&& extension(test_case.source_file.path@) is None
                &&& e matches TestSetupError::MissingFileExtension(p)
                &&& p@ == test_case.source_file.path@
                &&& final(replacements)@ == old(replacements)@
            },
        },
{
    let mut standard = match get_standard_replacements(test_case, test_type, paths) {
        Ok(v) => v,
        Err(e) => return Err(e),
    };
    let ghost before = replacements@;
    let ghost added = standard@;
    replacements.append(&mut standard);
    proof {
        lemma_raw_of_list_concat(before, added);
        lemma_params_of_list_concat(before, added, "params"@);
        assert(replacements@.take(before.len() as int) =~= before);
    }
    let mut raw_init = templates.helpers.clone();
    match test_type {
        TestType::PublishDiagnostics => raw_init.append(templates.diagnostic_autocmd.as_str()),
        TestType::Formatting | TestType::WorkspaceExecuteCommand => raw_init.append(
            templates.state_or_response_action.as_str(),
        ),
        TestType::SemanticTokensFullDelta => raw_init.append(
            templates.semantic_tokens_full_delta_action.as_str(),
        ),
        _ => raw_init.append(templates.request_action.as_str()),
    }
    raw_init.append(templates.attach.as_str());
    let raw_init = match test_type {
        TestType::PublishDiagnostics => replace_all(raw_init.as_str(), "LSP_ACTION", ""),
        _ => {
            let action = invoke_lsp_action(&test_case.start_type);
            replace_all(raw_init.as_str(), "LSP_ACTION", action.as_str())
        },
    };
    assert(raw_init@ == init_template(test_type, test_case.start_type, *templates));
    let replacement_set = LuaDocumentReplacement::new(replacements);
    assert(raw_of_list(replacements@) == raw_of_list(before) + raw_of_list(added));
    assert(replacements@.len() == before.len() + 14);
    assert(params_of_list(replacements@, "params"@) == params_of_list(before, "params"@));
    let doc = replacement_set.fill_document(raw_init);
    assert(doc@ == filled(
                    init_template(test_type, test_case.start_type, *templates),
                    raw_of_list(replacements@),
                    params_of_list(replacements@, "params"@)));
    Ok(doc)
}

proof fn lemma_raw_of_list_concat(a: Seq<LuaReplacement>, b: Seq<LuaReplacement>)
    ensures
        raw_of_list(a + b) == raw_of_list(a) + raw_of_list(b),
    decreases b.len(),
{
    if b.len() == 0 {
        assert(a + b =~= a);
    } else {
        lemma_raw_of_list_concat(a, b.drop_last());
        lemma_raw_of_list_push(a + b.drop_last(), b.last());
        lemma_raw_of_list_push(b.drop_last(), b.last());
        assert(a + b =~= (a + b.drop_last()).push(b.last()));
        assert(b =~= b.drop_last().push(b.last()));
    }
}

proof fn lemma_params_of_list_concat(a: Seq<LuaReplacement>, b: Seq<LuaReplacement>, parent: Seq<char>)
    ensures
        params_of_list(a + b, parent) == params_of_list(a, parent) + params_of_list(b, parent),
    decreases b.len(),
{
    if b.len() == 0 {
        assert(a + b =~= a);
    } else {
        lemma_params_of_list_concat(a, b.drop_last(), parent);
        lemma_params_of_list_push(a + b.drop_last(), b.last(), parent);
        lemma_params_of_list_push(b.drop_last(), b.last(), parent);
        assert(a + b =~= (a + b.drop_last()).push(b.last()));
        assert(b =~= b.drop_last().push(b.last()));
    }
}

} // verus!
