//! Verified serializer for `Settings` and its parts.
//!
//! Every function appends the JSON text of one value to an output string, and
//! its contract states the exact text as a spec-level function of the value's
//! view.  Field names are camel-cased on the wire; `remappings`, `metadata`,
//! `missingLibrariesPath` and `contractsToCompile` are omitted entirely when
//! they hold their default (empty or absent) values.
use crate::config::Libraries;
use crate::config::Optimizer;
use crate::config::OptimizerDetails;
use crate::config::OptimizerView;
use crate::config::OutputSelection;
use crate::config::Remapping;
use crate::config::RemappingView;
use crate::config::Settings;
use crate::config::SettingsMetadata;
use crate::config::SettingsMetadataView;
use crate::config::SettingsView;
use crate::json::append_bool;
use crate::json::append_json_string;
use crate::json::append_opt_bool;
use crate::json::jbool;
use crate::json::join_comma;
use crate::json::jopt_bool;
use crate::json::jstr;
use crate::json::lemma_join_comma_push;
use vstd::prelude::*;
use vstd::seq_lib::lemma_concat_associative;
use vstd::string::StringExecFns;

verus! {

/// The rendered text of one remapping: the single string `name=path`.
pub open spec fn jremap(r: RemappingView) -> Seq<char> {
    jstr(r.name + "="@ + r.path)
}

/// The rendered remappings, in order.
pub open spec fn jremapitems(rs: Seq<RemappingView>) -> Seq<Seq<char>> {
    rs.map_values(|r: RemappingView| jremap(r))
}

/// The JSON array of remappings.
pub open spec fn jremappings(rs: Seq<RemappingView>) -> Seq<char> {
    "["@ + join_comma(jremapitems(rs)) + "]"@
}

/// The rendered elements of a string array, in order.
pub open spec fn jstritems(ss: Seq<Seq<char>>) -> Seq<Seq<char>> {
    ss.map_values(|s: Seq<char>| jstr(s))
}

/// The JSON array of strings.
pub open spec fn jstrarray(ss: Seq<Seq<char>>) -> Seq<char> {
    "["@ + join_comma(jstritems(ss)) + "]"@
}

/// The JSON object for metadata settings; absent fields are omitted.
pub open spec fn jmetadata(m: SettingsMetadataView) -> Seq<char> {
    "{"@ + (match m.use_literal_content {
        Some(b) => "\"useLiteralContent\":"@ + jbool(b),
        None => Seq::<char>::empty(),
    }) + (match m.bytecode_hash {
        Some(h) => (if m.use_literal_content is Some {
            ","@
        } else {
            Seq::<char>::empty()
        }) + "\"bytecodeHash\":"@ + jstr(h),
        None => Seq::<char>::empty(),
    }) + "}"@
}

/// The JSON object for optimizer details; every flag is present, `null` when
/// unset.
pub open spec fn jdetails(d: OptimizerDetails) -> Seq<char> {
    "{\"peephole\":"@ + jopt_bool(d.peephole) + ",\"inliner\":"@ + jopt_bool(d.inliner)
        + ",\"jumpdestRemover\":"@ + jopt_bool(d.jumpdest_remover) + ",\"orderLiterals\":"@
        + jopt_bool(d.order_literals) + ",\"deduplicate\":"@ + jopt_bool(d.deduplicate)
        + ",\"cse\":"@ + jopt_bool(d.cse) + ",\"constantOptimizer\":"@ + jopt_bool(
        d.constant_optimizer,
    ) + ",\"yul\":"@ + jopt_bool(d.yul) + "}"@
}

/// The JSON object for the optimizer; every field is present, `null` when
/// unset.
pub open spec fn joptimizer(o: OptimizerView) -> Seq<char> {
    "{\"enabled\":"@ + jopt_bool(o.enabled) + ",\"mode\":"@ + (match o.mode {
        Some(m) => jstr(m),
        None => "null"@,
    }) + ",\"details\":"@ + (match o.details {
        Some(d) => jdetails(d),
        None => "null"@,
    }) + ",\"fallbackToOptimizingForSize\":"@ + jopt_bool(o.fallback_to_optimizing_for_size)
        + ",\"disableSystemRequestMemoization\":"@ + jbool(o.disable_system_request_memoization)
        + "}"@
}

/// The rendered text of one contract's output selection.
pub open spec fn jselcontract(c: (Seq<char>, Seq<Seq<char>>)) -> Seq<char> {
    jstr(c.0) + ":"@ + jstrarray(c.1)
}

/// The rendered contract entries of one file's output selection, in order.
pub open spec fn jselcontractitems(cs: Seq<(Seq<char>, Seq<Seq<char>>)>) -> Seq<Seq<char>> {
    cs.map_values(|c: (Seq<char>, Seq<Seq<char>>)| jselcontract(c))
}

/// The JSON object holding one file's contract selections.
pub open spec fn jselcontracts(cs: Seq<(Seq<char>, Seq<Seq<char>>)>) -> Seq<char> {
    "{"@ + join_comma(jselcontractitems(cs)) + "}"@
}

/// The rendered text of one file's output selection entry.
pub open spec fn jselfile(e: (Seq<char>, Seq<(Seq<char>, Seq<Seq<char>>)>)) -> Seq<char> {
    jstr(e.0) + ":"@ + jselcontracts(e.1)
}

/// The rendered file entries of an output selection, in order.
pub open spec fn jselfileitems(sel: Seq<(Seq<char>, Seq<(Seq<char>, Seq<Seq<char>>)>)>) -> Seq<
    Seq<char>,
> {
    sel.map_values(|e: (Seq<char>, Seq<(Seq<char>, Seq<Seq<char>>)>)| jselfile(e))
}

/// The JSON object for an output selection.
pub open spec fn jselection(sel: Seq<(Seq<char>, Seq<(Seq<char>, Seq<Seq<char>>)>)>) -> Seq<char> {
    "{"@ + join_comma(jselfileitems(sel)) + "}"@
}

/// The rendered text of one (library, address) pair.
pub open spec fn jlibpair(p: (Seq<char>, Seq<char>)) -> Seq<char> {
    jstr(p.0) + ":"@ + jstr(p.1)
}

/// The rendered pairs of one file's libraries, in order.
pub open spec fn jlibpairitems(ps: Seq<(Seq<char>, Seq<char>)>) -> Seq<Seq<char>> {
    ps.map_values(|p: (Seq<char>, Seq<char>)| jlibpair(p))
}

/// The JSON object holding one file's libraries.
pub open spec fn jlibobject(ps: Seq<(Seq<char>, Seq<char>)>) -> Seq<char> {
    "{"@ + join_comma(jlibpairitems(ps)) + "}"@
}

/// The rendered text of one file's library entry.
pub open spec fn jlibfile(e: (Seq<char>, Seq<(Seq<char>, Seq<char>)>)) -> Seq<char> {
    jstr(e.0) + ":"@ + jlibobject(e.1)
}

/// The rendered file entries of the libraries mapping, in order.
pub open spec fn jlibfileitems(ls: Seq<(Seq<char>, Seq<(Seq<char>, Seq<char>)>)>) -> Seq<
    Seq<char>,
> {
    ls.map_values(|e: (Seq<char>, Seq<(Seq<char>, Seq<char>)>)| jlibfile(e))
}

/// The JSON object for the libraries mapping.
pub open spec fn jlibraries(ls: Seq<(Seq<char>, Seq<(Seq<char>, Seq<char>)>)>) -> Seq<char> {
    "{"@ + join_comma(jlibfileitems(ls)) + "}"@
}

/// The `remappings` field with its trailing comma, or nothing when empty.
pub open spec fn seg_remappings(v: SettingsView) -> Seq<char> {
    if v.remappings.len() > 0 {
        "\"remappings\":"@ + jremappings(v.remappings) + ","@
    } else {
        Seq::<char>::empty()
    }
}

/// The `metadata` field with its leading comma, or nothing when absent.
pub open spec fn seg_metadata(v: SettingsView) -> Seq<char> {
    match v.metadata {
        Some(m) => ",\"metadata\":"@ + jmetadata(m),
        None => Seq::<char>::empty(),
    }
}

/// The `missingLibrariesPath` field with its leading comma, or nothing when
/// absent.
pub open spec fn seg_missing_path(v: SettingsView) -> Seq<char> {
    match v.missing_libraries_path {
        Some(p) => ",\"missingLibrariesPath\":"@ + jstr(p),
        None => Seq::<char>::empty(),
    }
}

/// The `contractsToCompile` field with its leading comma, or nothing when
/// empty.
pub open spec fn seg_contracts(v: SettingsView) -> Seq<char> {
    if v.contracts_to_compile.len() > 0 {
        ",\"contractsToCompile\":"@ + jstrarray(v.contracts_to_compile)
    } else {
        Seq::<char>::empty()
    }
}

/// The first half of the settings object: remappings, optimizer, metadata.
pub open spec fn jsettings_head(v: SettingsView) -> Seq<char> {
    "{"@ + seg_remappings(v) + "\"optimizer\":"@ + joptimizer(v.optimizer) + seg_metadata(v)
}

/// The second half of the settings object: everything after metadata.
pub open spec fn jsettings_tail(v: SettingsView) -> Seq<char> {
    ",\"outputSelection\":"@ + jselection(v.output_selection) + ",\"libraries\":"@ + jlibraries(
        v.libraries,
    ) + ",\"isSystem\":"@ + jbool(v.is_system) + ",\"forceEvmla\":"@ + jbool(v.force_evmla)
        + seg_missing_path(v) + ",\"areLibrariesMissing\":"@ + jbool(v.are_libraries_missing)
        + seg_contracts(v) + "}"@
}

/// The JSON object for a whole settings value.  Fields appear in declaration
/// order; `remappings`, `metadata`, `missingLibrariesPath` and
/// `contractsToCompile` are omitted when defaulted.
pub open spec fn jsettings(v: SettingsView) -> Seq<char> {
    jsettings_head(v) + jsettings_tail(v)
}

/// Omission on default: with empty remappings, absent metadata, an absent
/// missing-libraries path and an empty contract restriction, the serialized
/// settings object holds exactly the six always-present fields and none of
/// the four optional ones.
pub proof fn lemma_omission_on_default(v: SettingsView)
    requires
        v.remappings.len() == 0,
        v.metadata is None,
        v.missing_libraries_path is None,
        v.contracts_to_compile.len() == 0,
    ensures
        jsettings(v) == "{"@ + "\"optimizer\":"@ + joptimizer(v.optimizer)
            + ",\"outputSelection\":"@ + jselection(v.output_selection) + ",\"libraries\":"@
            + jlibraries(v.libraries) + ",\"isSystem\":"@ + jbool(v.is_system)
            + ",\"forceEvmla\":"@ + jbool(v.force_evmla) + ",\"areLibrariesMissing\":"@ + jbool(
            v.are_libraries_missing,
        ) + "}"@,
{
    let h = "{"@ + "\"optimizer\":"@ + joptimizer(v.optimizer);
    Seq::<char>::add_empty_right("{"@, seg_remappings(v));
    Seq::<char>::add_empty_right(h, seg_metadata(v));
    assert(jsettings_head(v) == h);
    let p1 = ",\"outputSelection\":"@;
    let p2 = jselection(v.output_selection);
    let p3 = ",\"libraries\":"@;
    let p4 = jlibraries(v.libraries);
    let p5 = ",\"isSystem\":"@;
    let p6 = jbool(v.is_system);
    let p7 = ",\"forceEvmla\":"@;
    let p8 = jbool(v.force_evmla);
    let p9 = ",\"areLibrariesMissing\":"@;
    let p10 = jbool(v.are_libraries_missing);
    let p11 = "}"@;
    let t2 = p1 + p2;
    let t3 = t2 + p3;
    let t4 = t3 + p4;
    let t5 = t4 + p5;
    let t6 = t5 + p6;
    let t7 = t6 + p7;
    let t8 = t7 + p8;
    Seq::<char>::add_empty_right(t8, seg_missing_path(v));
    let t9 = t8 + p9;
    let t10 = t9 + p10;
    Seq::<char>::add_empty_right(t10, seg_contracts(v));
    let t11 = t10 + p11;
    assert(jsettings_tail(v) == t11);
    lemma_concat_associative(h, p1, p2);
    lemma_concat_associative(h, t2, p3);
    lemma_concat_associative(h, t3, p4);
    lemma_concat_associative(h, t4, p5);
    lemma_concat_associative(h, t5, p6);
    lemma_concat_associative(h, t6, p7);
    lemma_concat_associative(h, t7, p8);
    lemma_concat_associative(h, t8, p9);
    lemma_concat_associative(h, t9, p10);
    lemma_concat_associative(h, t10, p11);
    assert(jsettings(v) == h + t11);
}

/// Appends the JSON array of remappings to `out`.
pub fn append_remappings(out: &mut String, v: &Vec<Remapping>)
    ensures
        final (out)@ == old(out)@ + jremappings(v.deep_view()),
{
    out.append("[");
    let mut i: usize = 0;
    proof {
        assert(jremapitems(v.deep_view()).subrange(0, 0) =~= Seq::<Seq<char>>::empty());
    }
    while i < v.len()
        invariant
            i <= v@.len(),
            out@ == old(out)@ + "["@ + join_comma(jremapitems(v.deep_view()).subrange(0, i as int)),
        decreases v@.len() - i,
    {
        if i > 0 {
            out.append(",");
        }
        let r = &v[i];
        let mut t = String::new();
        t.append(r.name.as_str());
        t.append("=");
        t.append(r.path.as_str());
        append_json_string(out, t.as_str());
        proof {
            let items = jremapitems(v.deep_view());
            assert(t@ =~= v@[i as int].name@ + "="@ + v@[i as int].path@);
            assert(items[i as int] == jremap(v.deep_view()[i as int]));
            assert(jstr(t@) == items[i as int]);
            if i == 0 {
                assert(items.subrange(0, 1) =~= seq![items[0]]);
                assert(join_comma(seq![items[0]]) == items[0]);
                assert(out@ =~= old(out)@ + "["@ + join_comma(items.subrange(0, 1)));
            } else {
                lemma_join_comma_push(items.subrange(0, i as int), items[i as int]);
                assert(items.subrange(0, i + 1 as int) =~= items.subrange(0, i as int).push(
                    items[i as int],
                ));
                assert(out@ =~= old(out)@ + "["@ + join_comma(items.subrange(0, i + 1 as int)));
            }
        }
        i += 1;
    }
    out.append("]");
    proof {
        let items = jremapitems(v.deep_view());
        assert(items.subrange(0, items.len() as int) =~= items);
        assert(out@ =~= old(out)@ + jremappings(v.deep_view()));
    }
}

/// Appends the JSON array of the strings in `v` to `out`.
pub fn append_string_array(out: &mut String, v: &Vec<String>)
    ensures
        final (out)@ == old(out)@ + jstrarray(v.deep_view()),
{
    out.append("[");
    let mut i: usize = 0;
    proof {
        assert(jstritems(v.deep_view()).subrange(0, 0) =~= Seq::<Seq<char>>::empty());
    }
    while i < v.len()
        invariant
            i <= v@.len(),
            out@ == old(out)@ + "["@ + join_comma(jstritems(v.deep_view()).subrange(0, i as int)),
        decreases v@.len() - i,
    {
        if i > 0 {
            out.append(",");
        }
        append_json_string(out, v[i].as_str());
        proof {
            let items = jstritems(v.deep_view());
            assert(items[i as int] == jstr(v@[i as int]@));
            if i == 0 {
                assert(items.subrange(0, 1) =~= seq![items[0]]);
                assert(join_comma(seq![items[0]]) == items[0]);
                assert(out@ =~= old(out)@ + "["@ + join_comma(items.subrange(0, 1)));
            } else {
                lemma_join_comma_push(items.subrange(0, i as int), items[i as int]);
                assert(items.subrange(0, i + 1 as int) =~= items.subrange(0, i as int).push(
                    items[i as int],
                ));
                assert(out@ =~= old(out)@ + "["@ + join_comma(items.subrange(0, i + 1 as int)));
            }
        }
        i += 1;
    }
    out.append("]");
    proof {
        let items = jstritems(v.deep_view());
        assert(items.subrange(0, items.len() as int) =~= items);
        assert(out@ =~= old(out)@ + jstrarray(v.deep_view()));
    }
}

/// Appends the JSON object for metadata settings to `out`.
pub fn append_metadata(out: &mut String, m: &SettingsMetadata)
    ensures
        final (out)@ == old(out)@ + jmetadata(m@),
{
    out.append("{");
    match &m.use_literal_content {
        Some(b) => {
            out.append("\"useLiteralContent\":");
            append_bool(out, *b);
        },
        None => {},
    }
    match &m.bytecode_hash {
        Some(h) => {
            if m.use_literal_content.is_some() {
                out.append(",");
            }
            out.append("\"bytecodeHash\":");
            append_json_string(out, h.as_str());
        },
        None => {},
    }
    out.append("}");
    proof {
        assert(final (out)@ =~= old(out)@ + jmetadata(m@));
    }
}

/// Appends the JSON object for optimizer details to `out`.
#[verifier::rlimit(60)]
pub fn append_details(out: &mut String, d: &OptimizerDetails)
    ensures
        final (out)@ == old(out)@ + jdetails(*d),
{
    let ghost o0 = old(out)@;
    out.append("{\"peephole\":");
    append_opt_bool(out, &d.peephole);
    let ghost p1 = "{\"peephole\":"@ + jopt_bool(d.peephole);
    proof {
        assert(out@ =~= o0 + p1);
    }
    out.append(",\"inliner\":");
    append_opt_bool(out, &d.inliner);
    let ghost p2 = p1 + ",\"inliner\":"@ + jopt_bool(d.inliner);
    proof {
        assert(out@ =~= o0 + p2);
    }
    out.append(",\"jumpdestRemover\":");
    append_opt_bool(out, &d.jumpdest_remover);
    let ghost p3 = p2 + ",\"jumpdestRemover\":"@ + jopt_bool(d.jumpdest_remover);
    proof {
        assert(out@ =~= o0 + p3);
    }
    out.append(",\"orderLiterals\":");
    append_opt_bool(out, &d.order_literals);
    let ghost p4 = p3 + ",\"orderLiterals\":"@ + jopt_bool(d.order_literals);
    proof {
        assert(out@ =~= o0 + p4);
    }
    out.append(",\"deduplicate\":");
    append_opt_bool(out, &d.deduplicate);
    let ghost p5 = p4 + ",\"deduplicate\":"@ + jopt_bool(d.deduplicate);
    proof {
        assert(out@ =~= o0 + p5);
    }
    out.append(",\"cse\":");
    append_opt_bool(out, &d.cse);
    let ghost p6 = p5 + ",\"cse\":"@ + jopt_bool(d.cse);
    proof {
        assert(out@ =~= o0 + p6);
    }
    out.append(",\"constantOptimizer\":");
    append_opt_bool(out, &d.constant_optimizer);
    let ghost p7 = p6 + ",\"constantOptimizer\":"@ + jopt_bool(d.constant_optimizer);
    proof {
        assert(out@ =~= o0 + p7);
    }
    out.append(",\"yul\":");
    append_opt_bool(out, &d.yul);
    out.append("}");
    let ghost p8 = p7 + ",\"yul\":"@ + jopt_bool(d.yul) + "}"@;
    proof {
        assert(out@ =~= o0 + p8);
        assert(p8 =~= jdetails(*d));
    }
}

/// Appends the JSON object for the optimizer to `out`.
pub fn append_optimizer(out: &mut String, o: &Optimizer)
    ensures
        final (out)@ == old(out)@ + joptimizer(o@),
{
    let ghost o0 = old(out)@;
    out.append("{\"enabled\":");
    append_opt_bool(out, &o.enabled);
    let ghost p1 = "{\"enabled\":"@ + jopt_bool(o@.enabled);
    proof {
        lemma_concat_associative(o0, "{\"enabled\":"@, jopt_bool(o@.enabled));
        assert(out@ == o0 + p1);
    }
    out.append(",\"mode\":");
    let ghost mseg = (match o@.mode {
        Some(m) => jstr(m),
        None => "null"@,
    });
    match &o.mode {
        Some(m) => {
            append_json_string(out, m.as_str());
            proof {
                assert(mseg == jstr(m@));
            }
        },
        None => {
            out.append("null");
            proof {
                assert(mseg == "null"@);
            }
        },
    }
    let ghost p2 = p1 + ",\"mode\":"@ + mseg;
    proof {
        lemma_concat_associative(o0, p1, ",\"mode\":"@);
        lemma_concat_associative(o0, p1 + ",\"mode\":"@, mseg);
        assert(out@ == o0 + p2);
    }
    out.append(",\"details\":");
    let ghost dseg = (match o@.details {
        Some(d) => jdetails(d),
        None => "null"@,
    });
    match &o.details {
        Some(d) => {
            append_details(out, d);
            proof {
                assert(dseg == jdetails(*d));
            }
        },
        None => {
            out.append("null");
            proof {
                assert(dseg == "null"@);
            }
        },
    }
    let ghost p3 = p2 + ",\"details\":"@ + dseg;
    proof {
        lemma_concat_associative(o0, p2, ",\"details\":"@);
        lemma_concat_associative(o0, p2 + ",\"details\":"@, dseg);
        assert(out@ == o0 + p3);
    }
    out.append(",\"fallbackToOptimizingForSize\":");
    append_opt_bool(out, &o.fallback_to_optimizing_for_size);
    let ghost p4 = p3 + ",\"fallbackToOptimizingForSize\":"@ + jopt_bool(
        o@.fallback_to_optimizing_for_size,
    );
    proof {
        lemma_concat_associative(o0, p3, ",\"fallbackToOptimizingForSize\":"@);
        lemma_concat_associative(
            o0,
            p3 + ",\"fallbackToOptimizingForSize\":"@,
            jopt_bool(o@.fallback_to_optimizing_for_size),
        );
        assert(out@ == o0 + p4);
    }
    out.append(",\"disableSystemRequestMemoization\":");
    append_bool(out, o.disable_system_request_memoization);
    out.append("}");
    let ghost p5 = p4 + ",\"disableSystemRequestMemoization\":"@ + jbool(
        o@.disable_system_request_memoization,
    ) + "}"@;
    proof {
        lemma_concat_associative(o0, p4, ",\"disableSystemRequestMemoization\":"@);
        lemma_concat_associative(
            o0,
            p4 + ",\"disableSystemRequestMemoization\":"@,
            jbool(o@.disable_system_request_memoization),
        );
        lemma_concat_associative(
            o0,
            p4 + ",\"disableSystemRequestMemoization\":"@ + jbool(
                o@.disable_system_request_memoization,
            ),
            "}"@,
        );
        assert(out@ == o0 + p5);
        assert(p5 == joptimizer(o@));
    }
}

/// Appends the JSON object holding one file's contract selections to `out`.
fn append_sel_contracts(out: &mut String, cs: &Vec<(String, Vec<String>)>)
    ensures
        final (out)@ == old(out)@ + jselcontracts(cs.deep_view()),
{
    out.append("{");
    let mut i: usize = 0;
    proof {
        assert(jselcontractitems(cs.deep_view()).subrange(0, 0) =~= Seq::<Seq<char>>::empty());
    }
    while i < cs.len()
        invariant
            i <= cs@.len(),
            out@ == old(out)@ + "{"@ + join_comma(
                jselcontractitems(cs.deep_view()).subrange(0, i as int),
            ),
        decreases cs@.len() - i,
    {
        if i > 0 {
            out.append(",");
        }
        let e = &cs[i];
        append_json_string(out, e.0.as_str());
        out.append(":");
        append_string_array(out, &e.1);
        proof {
            let items = jselcontractitems(cs.deep_view());
            assert(cs.deep_view()[i as int] == cs@[i as int].deep_view());
            assert(items[i as int] == jselcontract(cs.deep_view()[i as int]));
            if i == 0 {
                assert(items.subrange(0, 1) =~= seq![items[0]]);
                assert(join_comma(seq![items[0]]) == items[0]);
                assert(out@ =~= old(out)@ + "{"@ + join_comma(items.subrange(0, 1)));
            } else {
                lemma_join_comma_push(items.subrange(0, i as int), items[i as int]);
                assert(items.subrange(0, i + 1 as int) =~= items.subrange(0, i as int).push(
                    items[i as int],
                ));
                assert(out@ =~= old(out)@ + "{"@ + join_comma(items.subrange(0, i + 1 as int)));
            }
        }
        i += 1;
    }
    out.append("}");
    proof {
        let items = jselcontractitems(cs.deep_view());
        assert(items.subrange(0, items.len() as int) =~= items);
        assert(out@ =~= old(out)@ + jselcontracts(cs.deep_view()));
    }
}

/// Appends the JSON object for an output selection to `out`.
pub fn append_selection(out: &mut String, s: &OutputSelection)
    ensures
        final (out)@ == old(out)@ + jselection(s.selection.deep_view()),
{
    out.append("{");
    let mut i: usize = 0;
    proof {
        assert(jselfileitems(s.selection.deep_view()).subrange(0, 0) =~= Seq::<Seq<char>>::empty());
    }
    while i < s.selection.len()
        invariant
            i <= s.selection@.len(),
            out@ == old(out)@ + "{"@ + join_comma(
                jselfileitems(s.selection.deep_view()).subrange(0, i as int),
            ),
        decreases s.selection@.len() - i,
    {
        if i > 0 {
            out.append(",");
        }
        let e = &s.selection[i];
        append_json_string(out, e.0.as_str());
        out.append(":");
        append_sel_contracts(out, &e.1);
        proof {
            let items = jselfileitems(s.selection.deep_view());
            assert(s.selection.deep_view()[i as int] == s.selection@[i as int].deep_view());
            assert(items[i as int] == jselfile(s.selection.deep_view()[i as int]));
            if i == 0 {
                assert(items.subrange(0, 1) =~= seq![items[0]]);
                assert(join_comma(seq![items[0]]) == items[0]);
                assert(out@ =~= old(out)@ + "{"@ + join_comma(items.subrange(0, 1)));
            } else {
                lemma_join_comma_push(items.subrange(0, i as int), items[i as int]);
                assert(items.subrange(0, i + 1 as int) =~= items.subrange(0, i as int).push(
                    items[i as int],
                ));
                assert(out@ =~= old(out)@ + "{"@ + join_comma(items.subrange(0, i + 1 as int)));
            }
        }
        i += 1;
    }
    out.append("}");
    proof {
        let items = jselfileitems(s.selection.deep_view());
        assert(items.subrange(0, items.len() as int) =~= items);
        assert(out@ =~= old(out)@ + jselection(s.selection.deep_view()));
    }
}

/// Appends the JSON object holding one file's libraries to `out`.
fn append_lib_pairs(out: &mut String, ps: &Vec<(String, String)>)
    ensures
        final (out)@ == old(out)@ + jlibobject(ps.deep_view()),
{
    out.append("{");
    let mut i: usize = 0;
    proof {
        assert(jlibpairitems(ps.deep_view()).subrange(0, 0) =~= Seq::<Seq<char>>::empty());
    }
    while i < ps.len()
        invariant
            i <= ps@.len(),
            out@ == old(out)@ + "{"@ + join_comma(
                jlibpairitems(ps.deep_view()).subrange(0, i as int),
            ),
        decreases ps@.len() - i,
    {
        if i > 0 {
            out.append(",");
        }
        let e = &ps[i];
        append_json_string(out, e.0.as_str());
        out.append(":");
        append_json_string(out, e.1.as_str());
        proof {
            let items = jlibpairitems(ps.deep_view());
            assert(ps.deep_view()[i as int] == ps@[i as int].deep_view());
            assert(items[i as int] == jlibpair(ps.deep_view()[i as int]));
            if i == 0 {
                assert(items.subrange(0, 1) =~= seq![items[0]]);
                assert(join_comma(seq![items[0]]) == items[0]);
                assert(out@ =~= old(out)@ + "{"@ + join_comma(items.subrange(0, 1)));
            } else {
                lemma_join_comma_push(items.subrange(0, i as int), items[i as int]);
                assert(items.subrange(0, i + 1 as int) =~= items.subrange(0, i as int).push(
                    items[i as int],
                ));
                assert(out@ =~= old(out)@ + "{"@ + join_comma(items.subrange(0, i + 1 as int)));
            }
        }
        i += 1;
    }
    out.append("}");
    proof {
        let items = jlibpairitems(ps.deep_view());
        assert(items.subrange(0, items.len() as int) =~= items);
        assert(out@ =~= old(out)@ + jlibobject(ps.deep_view()));
    }
}

/// Appends the JSON object for the libraries mapping to `out`.
pub fn append_libraries(out: &mut String, l: &Libraries)
    ensures
        final (out)@ == old(out)@ + jlibraries(l.libs.deep_view()),
{
    out.append("{");
    let mut i: usize = 0;
    proof {
        assert(jlibfileitems(l.libs.deep_view()).subrange(0, 0) =~= Seq::<Seq<char>>::empty());
    }
    while i < l.libs.len()
        invariant
            i <= l.libs@.len(),
            out@ == old(out)@ + "{"@ + join_comma(
                jlibfileitems(l.libs.deep_view()).subrange(0, i as int),
            ),
        decreases l.libs@.len() - i,
    {
        if i > 0 {
            out.append(",");
        }
        let e = &l.libs[i];
        append_json_string(out, e.0.as_str());
        out.append(":");
        append_lib_pairs(out, &e.1);
        proof {
            let items = jlibfileitems(l.libs.deep_view());
            assert(l.libs.deep_view()[i as int] == l.libs@[i as int].deep_view());
            assert(items[i as int] == jlibfile(l.libs.deep_view()[i as int]));
            if i == 0 {
                assert(items.subrange(0, 1) =~= seq![items[0]]);
                assert(join_comma(seq![items[0]]) == items[0]);
                assert(out@ =~= old(out)@ + "{"@ + join_comma(items.subrange(0, 1)));
            } else {
                lemma_join_comma_push(items.subrange(0, i as int), items[i as int]);
                assert(items.subrange(0, i + 1 as int) =~= items.subrange(0, i as int).push(
                    items[i as int],
                ));
                assert(out@ =~= old(out)@ + "{"@ + join_comma(items.subrange(0, i + 1 as int)));
            }
        }
        i += 1;
    }
    out.append("}");
    proof {
        let items = jlibfileitems(l.libs.deep_view());
        assert(items.subrange(0, items.len() as int) =~= items);
        assert(out@ =~= old(out)@ + jlibraries(l.libs.deep_view()));
    }
}

/// Appends everything after the metadata field to `out`.
fn append_settings_tail(out: &mut String, s: &Settings)
    ensures
        final (out)@ == old(out)@ + jsettings_tail(s@),
{
    let ghost o0 = old(out)@;
    out.append(",\"outputSelection\":");
    append_selection(out, &s.output_selection);
    let ghost p1 = ",\"outputSelection\":"@ + jselection(s@.output_selection);
    proof {
        lemma_concat_associative(o0, ",\"outputSelection\":"@, jselection(s@.output_selection));
        assert(out@ == o0 + p1);
    }
    out.append(",\"libraries\":");
    append_libraries(out, &s.libraries);
    let ghost p2 = p1 + ",\"libraries\":"@ + jlibraries(s@.libraries);
    proof {
        lemma_concat_associative(o0, p1, ",\"libraries\":"@);
        lemma_concat_associative(o0, p1 + ",\"libraries\":"@, jlibraries(s@.libraries));
        assert(out@ == o0 + p2);
    }
    out.append(",\"isSystem\":");
    append_bool(out, s.is_system);
    out.append(",\"forceEvmla\":");
    append_bool(out, s.force_evmla);
    let ghost p3 = p2 + ",\"isSystem\":"@ + jbool(s@.is_system) + ",\"forceEvmla\":"@ + jbool(
        s@.force_evmla,
    );
    proof {
        lemma_concat_associative(o0, p2, ",\"isSystem\":"@);
        lemma_concat_associative(o0, p2 + ",\"isSystem\":"@, jbool(s@.is_system));
        lemma_concat_associative(
            o0,
            p2 + ",\"isSystem\":"@ + jbool(s@.is_system),
            ",\"forceEvmla\":"@,
        );
        lemma_concat_associative(
            o0,
            p2 + ",\"isSystem\":"@ + jbool(s@.is_system) + ",\"forceEvmla\":"@,
            jbool(s@.force_evmla),
        );
        assert(out@ == o0 + p3);
    }
    match &s.missing_libraries_path {
        Some(p) => {
            out.append(",\"missingLibrariesPath\":");
            append_json_string(out, p.as_str());
            proof {
                assert(seg_missing_path(s@) == ",\"missingLibrariesPath\":"@ + jstr(p@));
                lemma_concat_associative(o0 + p3, ",\"missingLibrariesPath\":"@, jstr(p@));
                lemma_concat_associative(o0, p3, seg_missing_path(s@));
            }
        },
        None => {
            proof {
                Seq::<char>::add_empty_right(p3, seg_missing_path(s@));
            }
        },
    }
    let ghost p4 = p3 + seg_missing_path(s@);
    proof {
        assert(out@ == o0 + p4);
    }
    out.append(",\"areLibrariesMissing\":");
    append_bool(out, s.are_libraries_missing);
    let ghost q = p4 + ",\"areLibrariesMissing\":"@ + jbool(s@.are_libraries_missing);
    proof {
        lemma_concat_associative(o0, p4, ",\"areLibrariesMissing\":"@);
        lemma_concat_associative(
            o0,
            p4 + ",\"areLibrariesMissing\":"@,
            jbool(s@.are_libraries_missing),
        );
        assert(out@ == o0 + q);
    }
    if s.contracts_to_compile.len() > 0 {
        out.append(",\"contractsToCompile\":");
        append_string_array(out, &s.contracts_to_compile);
        proof {
            assert(seg_contracts(s@) == ",\"contractsToCompile\":"@ + jstrarray(
                s@.contracts_to_compile,
            ));
            lemma_concat_associative(
                o0 + q,
                ",\"contractsToCompile\":"@,
                jstrarray(s@.contracts_to_compile),
            );
            lemma_concat_associative(o0, q, seg_contracts(s@));
        }
    } else {
        proof {
            Seq::<char>::add_empty_right(q, seg_contracts(s@));
        }
    }
    let ghost p5 = q + seg_contracts(s@);
    proof {
        assert(out@ == o0 + p5);
    }
    out.append("}");
    proof {
        lemma_concat_associative(o0, p5, "}"@);
        assert(out@ == o0 + (p5 + "}"@));
        assert(p5 + "}"@ == jsettings_tail(s@));
    }
}

/// Appends the JSON object for a whole settings value to `out`.
pub fn append_settings(out: &mut String, s: &Settings)
    ensures
        final (out)@ == old(out)@ + jsettings(s@),
{
    let ghost o0 = old(out)@;
    out.append("{");
    if s.remappings.len() > 0 {
        out.append("\"remappings\":");
        append_remappings(out, &s.remappings);
        out.append(",");
        proof {
            assert(seg_remappings(s@) == ("\"remappings\":"@ + jremappings(s@.remappings)) + ","@);
            lemma_concat_associative(o0, "{"@, "\"remappings\":"@);
            lemma_concat_associative(o0, "{"@ + "\"remappings\":"@, jremappings(s@.remappings));
            lemma_concat_associative(
                o0,
                ("{"@ + "\"remappings\":"@) + jremappings(s@.remappings),
                ","@,
            );
            lemma_concat_associative("{"@, "\"remappings\":"@, jremappings(s@.remappings));
            lemma_concat_associative("{"@, "\"remappings\":"@ + jremappings(s@.remappings), ","@);
        }
    } else {
        proof {
            Seq::<char>::add_empty_right("{"@, seg_remappings(s@));
        }
    }
    let ghost p1 = "{"@ + seg_remappings(s@);
    proof {
        assert(out@ == o0 + p1);
    }
    out.append("\"optimizer\":");
    append_optimizer(out, &s.optimizer);
    let ghost p2 = p1 + "\"optimizer\":"@ + joptimizer(s@.optimizer);
    proof {
        lemma_concat_associative(o0, p1, "\"optimizer\":"@);
        lemma_concat_associative(o0, p1 + "\"optimizer\":"@, joptimizer(s@.optimizer));
        assert(out@ == o0 + p2);
    }
    match &s.metadata {
        Some(m) => {
            out.append(",\"metadata\":");
            append_metadata(out, m);
            proof {
                assert(seg_metadata(s@) == ",\"metadata\":"@ + jmetadata(m@));
                lemma_concat_associative(o0 + p2, ",\"metadata\":"@, jmetadata(m@));
                lemma_concat_associative(o0, p2, seg_metadata(s@));
            }
        },
        None => {
            proof {
                Seq::<char>::add_empty_right(p2, seg_metadata(s@));
            }
        },
    }
    let ghost p3 = p2 + seg_metadata(s@);
    proof {
        assert(out@ == o0 + p3);
        assert(p3 == jsettings_head(s@));
    }
    append_settings_tail(out, s);
    proof {
        lemma_concat_associative(o0, jsettings_head(s@), jsettings_tail(s@));
        assert(out@ == o0 + jsettings(s@));
    }
}

} // verus!
