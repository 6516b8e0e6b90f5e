//! The compiler-input value whose `sources` keep their caller-given order.
//!
//! `ZkStandardJsonCompilerInput` holds the language tag, an explicitly
//! ordered sequence of (path, source) pairs and the settings.  Its serializer
//! walks the pair sequence directly, so the `sources` JSON object carries its
//! keys in exactly that order, and the parser reads an object's entries back
//! in document order.  The round-trip lemmas prove that parsing inverts
//! serialization for every pair sequence, duplicates included.
use crate::config::Settings;
use crate::config::SettingsView;
use crate::config::Source;
use crate::json::join_comma;
use crate::json::esc;
use crate::json::jstr;
use crate::json::lemma_join_comma_push;
use crate::json::lemma_parse_esc;
use crate::json::lemma_parse_str_body_shrinks;
use crate::json::parse_str_body;
use crate::json::parse_string_body_exec;
use crate::json::str_chars;
use crate::json::suffix;
use crate::json::append_json_string;
use crate::settings_json::append_settings;
use crate::settings_json::jsettings;
use vstd::prelude::*;
use vstd::seq_lib::lemma_concat_associative;
use vstd::string::StrSliceExecFns;
use vstd::string::StringExecFns;

verus! {

/// The (path, content) pairs a sources vector stands for, in order.
pub open spec fn sources_view(s: Seq<(String, Source)>) -> Seq<(Seq<char>, Seq<char>)> {
    s.map_values(|p: (String, Source)| (p.0@, p.1.content@))
}

/// The JSON object for one source: `{"content":"..."}`.
pub open spec fn jsource(content: Seq<char>) -> Seq<char> {
    "{\"content\":"@ + jstr(content) + "}"@
}

/// The rendered text of one sources entry: the path as key, the source as
/// value.
pub open spec fn jentry(p: (Seq<char>, Seq<char>)) -> Seq<char> {
    jstr(p.0) + ":"@ + jsource(p.1)
}

/// The rendered sources entries, in the order of the sequence.
pub open spec fn jentryitems(ps: Seq<(Seq<char>, Seq<char>)>) -> Seq<Seq<char>> {
    ps.map_values(|p: (Seq<char>, Seq<char>)| jentry(p))
}

/// The sources JSON object: keys appear in exactly the order of `ps`.
pub open spec fn jsources(ps: Seq<(Seq<char>, Seq<char>)>) -> Seq<char> {
    "{"@ + join_comma(jentryitems(ps)) + "}"@
}

/// Reads one sources entry: a path string, the 13-character text
/// `:{"content":"` and the content string body, then the closing brace of the
/// source object.
pub open spec fn parse_entry(s: Seq<char>) -> Option<((Seq<char>, Seq<char>), Seq<char>)> {
    if s.len() >= 1 && s[0] == '"' {
        match parse_str_body(s.drop_first()) {
            Some(p1) => {
                if p1.1.len() >= 13 && p1.1.subrange(0, 13) == ":{\"content\":\""@ {
                    match parse_str_body(p1.1.subrange(13, p1.1.len() as int)) {
                        Some(p2) => {
                            if p2.1.len() >= 1 && p2.1[0] == '}' {
                                Some(((p1.0, p2.0), p2.1.drop_first()))
                            } else {
                                None
                            }
                        },
                        None => None,
                    }
                } else {
                    None
                }
            },
            None => None,
        }
    } else {
        None
    }
}

/// Parsing an entry consumes at least one character.
pub proof fn lemma_parse_entry_shrinks(s: Seq<char>)
    ensures
        parse_entry(s) matches Some(e) ==> e.1.len() < s.len(),
{
    if s.len() >= 1 && s[0] == '"' {
        lemma_parse_str_body_shrinks(s.drop_first());
        match parse_str_body(s.drop_first()) {
            Some(p1) => {
                if p1.1.len() >= 13 && p1.1.subrange(0, 13) == ":{\"content\":\""@ {
                    lemma_parse_str_body_shrinks(p1.1.subrange(13, p1.1.len() as int));
                }
            },
            None => {},
        }
    }
}

/// Reads entries separated by commas, stopping before whatever follows the
/// last entry.
pub open spec fn parse_pairs(s: Seq<char>) -> Option<(Seq<(Seq<char>, Seq<char>)>, Seq<char>)>
    decreases s.len(),
{
    match parse_entry(s) {
        Some(e) => {
            if e.1.len() >= 1 && e.1[0] == ',' {
                if e.1.len() < s.len() {
                    match parse_pairs(e.1.drop_first()) {
                        Some(q) => Some((seq![e.0] + q.0, q.1)),
                        None => None,
                    }
                } else {
                    None
                }
            } else {
                Some((seq![e.0], e.1))
            }
        },
        None => None,
    }
}

/// Reads a whole sources object, returning its (path, content) pairs in
/// document order.
pub open spec fn parse_sources(s: Seq<char>) -> Option<Seq<(Seq<char>, Seq<char>)>> {
    if s.len() >= 2 && s[0] == '{' {
        if s.len() == 2 && s[1] == '}' {
            Some(Seq::<(Seq<char>, Seq<char>)>::empty())
        } else {
            match parse_pairs(s.drop_first()) {
                Some(q) => {
                    if q.1.len() == 1 && q.1[0] == '}' {
                        Some(q.0)
                    } else {
                        None
                    }
                },
                None => None,
            }
        }
    } else {
        None
    }
}

/// Parsing inverts serializing one entry, whatever follows it.
pub proof fn lemma_parse_entry_inverts(p: (Seq<char>, Seq<char>), rest: Seq<char>)
    ensures
        parse_entry(jentry(p) + rest) == Some((p, rest)),
{
    reveal_strlit(":{\"content\":\"");
    reveal_strlit(":");
    reveal_strlit("{\"content\":");
    reveal_strlit("}");
    let t = jentry(p) + rest;
    let r1 = ":"@ + jsource(p.1) + rest;
    assert(t.len() >= 1);
    assert(t[0] == '"');
    assert(t.drop_first() =~= esc(p.0) + seq!['"'] + r1);
    lemma_parse_esc(p.0, r1);
    assert(parse_str_body(t.drop_first()) == Some((p.0, r1)));
    let s2 = esc(p.1) + seq!['"'] + (seq!['}'] + rest);
    assert(r1.len() >= 13);
    assert(r1.subrange(0, 13) =~= ":{\"content\":\""@);
    assert(r1.subrange(13, r1.len() as int) =~= s2);
    lemma_parse_esc(p.1, seq!['}'] + rest);
    assert(parse_str_body(s2) == Some((p.1, seq!['}'] + rest)));
    assert((seq!['}'] + rest).len() >= 1);
    assert((seq!['}'] + rest)[0] == '}');
    assert((seq!['}'] + rest).drop_first() =~= rest);
}

/// Parsing inverts serializing a non-empty run of entries, as long as what
/// follows them does not begin with a comma.
pub proof fn lemma_parse_pairs_inverts(ps: Seq<(Seq<char>, Seq<char>)>, rest: Seq<char>)
    requires
        ps.len() >= 1,
        rest.len() == 0 || rest[0] != ',',
    ensures
        parse_pairs(join_comma(jentryitems(ps)) + rest) == Some((ps, rest)),
    decreases ps.len(),
{
    let items = jentryitems(ps);
    if ps.len() == 1 {
        assert(join_comma(items) == items[0]);
        lemma_parse_entry_inverts(ps[0], rest);
        assert(parse_entry(jentry(ps[0]) + rest) == Some((ps[0], rest)));
        assert(seq![ps[0]] =~= ps);
    } else {
        let tail_items = jentryitems(ps.drop_first());
        assert(items.drop_first() =~= tail_items);
        let joined_tail = join_comma(tail_items);
        let r1 = ","@ + (joined_tail + rest);
        assert(join_comma(items) + rest =~= jentry(ps[0]) + r1);
        lemma_parse_entry_inverts(ps[0], r1);
        let t = join_comma(items) + rest;
        assert(parse_entry(t) == Some((ps[0], r1)));
        reveal_strlit(",");
        assert(r1.len() >= 1 && r1[0] == ',');
        assert(jentry(ps[0]).len() >= 1) by {
            assert(jentry(ps[0])[0] == '"');
        }
        assert(r1.len() < t.len());
        assert(r1.drop_first() =~= joined_tail + rest);
        lemma_parse_pairs_inverts(ps.drop_first(), rest);
        assert(parse_pairs(joined_tail + rest) == Some((ps.drop_first(), rest)));
        assert(seq![ps[0]] + ps.drop_first() =~= ps);
    }
}

/// Order preservation, round trip: parsing a serialized sources object gives
/// back exactly the same (path, content) pairs, in the same order, for every
/// pair sequence, duplicates included.
pub proof fn lemma_sources_round_trip(ps: Seq<(Seq<char>, Seq<char>)>)
    ensures
        parse_sources(jsources(ps)) == Some(ps),
{
    reveal_strlit("{");
    reveal_strlit("}");
    let items = jentryitems(ps);
    let t = jsources(ps);
    if ps.len() == 0 {
        assert(join_comma(items) =~= Seq::<char>::empty());
        assert(t =~= seq!['{', '}']);
        assert(t.len() == 2 && t[0] == '{' && t[1] == '}');
        assert(parse_sources(t) == Some(Seq::<(Seq<char>, Seq<char>)>::empty()));
        assert(Seq::<(Seq<char>, Seq<char>)>::empty() =~= ps);
    } else {
        assert(join_comma(items).len() >= 1) by {
            assert(items[0] == jentry(ps[0]));
            assert(jentry(ps[0])[0] == '"');
            if items.len() == 1 {
                assert(join_comma(items) == items[0]);
            } else {
                assert(join_comma(items)[0] == items[0][0]);
            }
        }
        assert(t[0] == '{');
        assert(t.len() > 2);
        assert(t.drop_first() =~= join_comma(items) + "}"@);
        assert("}"@[0] == '}');
        lemma_parse_pairs_inverts(ps, "}"@);
        assert(parse_pairs(t.drop_first()) == Some((ps, "}"@)));
        assert("}"@.len() == 1);
    }
}

/// Appends the sources JSON object to `out`: one key per pair, in pair
/// order.
pub fn append_sources(out: &mut String, v: &Vec<(String, Source)>)
    ensures
        final (out)@ == old(out)@ + jsources(sources_view(v@)),
{
    out.append("{");
    let mut i: usize = 0;
    proof {
        assert(jentryitems(sources_view(v@)).subrange(0, 0) =~= Seq::<Seq<char>>::empty());
    }
    while i < v.len()
        invariant
            i <= v@.len(),
            out@ == old(out)@ + "{"@ + join_comma(
                jentryitems(sources_view(v@)).subrange(0, i as int),
            ),
        decreases v@.len() - i,
    {
        if i > 0 {
            out.append(",");
        }
        let e = &v[i];
        append_json_string(out, e.0.as_str());
        out.append(":{\"content\":");
        append_json_string(out, e.1.content.as_str());
        out.append("}");
        proof {
            reveal_strlit(":");
            reveal_strlit("{\"content\":");
            reveal_strlit(":{\"content\":");
            let items = jentryitems(sources_view(v@));
            assert(sources_view(v@)[i as int] == (v@[i as int].0@, v@[i as int].1.content@));
            assert(items[i as int] == jentry((v@[i as int].0@, v@[i as int].1.content@)));
            assert(jentry((v@[i as int].0@, v@[i as int].1.content@)) =~= jstr(v@[i as int].0@)
                + ":{\"content\":"@ + jstr(v@[i as int].1.content@) + "}"@);
            if i == 0 {
                assert(items.subrange(0, 1) =~= seq![items[0]]);
                assert(join_comma(seq![items[0]]) == items[0]);
                assert(out@ =~= old(out)@ + "{"@ + join_comma(items.subrange(0, 1)));
            } else {
                lemma_join_comma_push(items.subrange(0, i as int), items[i as int]);
                assert(items.subrange(0, i + 1 as int) =~= items.subrange(0, i as int).push(
                    items[i as int],
                ));
                assert(out@ =~= old(out)@ + "{"@ + join_comma(items.subrange(0, i + 1 as int)));
            }
        }
        i += 1;
    }
    out.append("}");
    proof {
        let items = jentryitems(sources_view(v@));
        assert(items.subrange(0, items.len() as int) =~= items);
        assert(out@ =~= old(out)@ + jsources(sources_view(v@)));
    }
}

/// Prepends already-read pairs to a partial parse result.
pub open spec fn prepend_pairs(
    pre: Seq<(Seq<char>, Seq<char>)>,
    p: Option<(Seq<(Seq<char>, Seq<char>)>, Seq<char>)>,
) -> Option<(Seq<(Seq<char>, Seq<char>)>, Seq<char>)> {
    match p {
        Some(q) => Some((pre + q.0, q.1)),
        None => None,
    }
}

/// Prepending pairs distributes over composition.
proof fn lemma_prepend_pairs_compose(
    a: Seq<(Seq<char>, Seq<char>)>,
    b: Seq<(Seq<char>, Seq<char>)>,
    p: Option<(Seq<(Seq<char>, Seq<char>)>, Seq<char>)>,
)
    ensures
        prepend_pairs(a, prepend_pairs(b, p)) == prepend_pairs(a + b, p),
{
    match p {
        Some(q) => {
            assert(a + (b + q.0) =~= (a + b) + q.0);
        },
        None => {},
    }
}

/// Tests whether the 13 characters `:{"content":"` stand at `pos`.
fn match_content_key(chars: &Vec<char>, pos: usize) -> (r: bool)
    requires
        pos <= chars@.len(),
    ensures
        r == (suffix(chars@, pos as int).len() >= 13 && suffix(chars@, pos as int).subrange(0, 13)
            == ":{\"content\":\""@),
{
    proof {
        reveal_strlit(":{\"content\":\"");
    }
    let n = chars.len();
    if n - pos < 13 {
        return false;
    }
    let lit = ":{\"content\":\"";
    let mut k: usize = 0;
    while k < 13
        invariant
            k <= 13,
            n == chars@.len(),
            pos + 13 <= n,
            lit@ == ":{\"content\":\""@,
            lit@.len() == 13,
            forall|j: int| 0 <= j < k ==> chars@[pos + j] == lit@[j],
        decreases 13 - k,
    {
        let c = lit.get_char(k);
        proof {
            assert(pos + k < chars@.len());
        }
        if chars[pos + k] != c {
            proof {
                let su = suffix(chars@, pos as int).subrange(0, 13);
                assert(su[k as int] == chars@[pos + k]);
                assert(su != lit@);
            }
            return false;
        }
        k += 1;
    }
    proof {
        assert(suffix(chars@, pos as int).subrange(0, 13) =~= lit@);
    }
    true
}

/// Reads one sources entry out of `chars` starting at `start`, returning the
/// path, the source and the position right after the entry.
fn parse_entry_exec(chars: &Vec<char>, start: usize) -> (r: Option<(String, Source, usize)>)
    requires
        start <= chars@.len(),
    ensures
        match r {
            Some(e) => start < e.2 <= chars@.len() && parse_entry(suffix(chars@, start as int))
                == Some(((e.0@, e.1.content@), suffix(chars@, e.2 as int))),
            None => parse_entry(suffix(chars@, start as int)) is None,
        },
{
    let ghost s0 = suffix(chars@, start as int);
    if start == chars.len() || chars[start] != '"' {
        return None;
    }
    proof {
        assert(s0[0] == '"');
        assert(s0.drop_first() =~= suffix(chars@, start + 1 as int));
    }
    let p1 = parse_string_body_exec(chars, start + 1);
    match p1 {
        None => None,
        Some((path, r1pos)) => {
            proof {
                assert(parse_str_body(s0.drop_first()) == Some(
                    (path@, suffix(chars@, r1pos as int)),
                ));
            }
            if !match_content_key(chars, r1pos) {
                return None;
            }
            proof {
                assert(suffix(chars@, r1pos as int).subrange(
                    13,
                    suffix(chars@, r1pos as int).len() as int,
                ) =~= suffix(chars@, r1pos + 13 as int));
            }
            let p2 = parse_string_body_exec(chars, r1pos + 13);
            match p2 {
                None => None,
                Some((content, r2pos)) => {
                    if r2pos < chars.len() && chars[r2pos] == '}' {
                        proof {
                            let r2 = suffix(chars@, r2pos as int);
                            assert(r2[0] == '}');
                            assert(r2.drop_first() =~= suffix(chars@, r2pos + 1 as int));
                            lemma_parse_entry_shrinks(s0);
                        }
                        Some((path, Source { content }, r2pos + 1))
                    } else {
                        None
                    }
                },
            }
        },
    }
}

/// Parses a sources JSON object back into its (path, source) pairs, in
/// document order.  Accepts exactly the canonical text `append_sources`
/// emits; returns `None` on any other input.
pub fn parse_sources_json(s: &str) -> (r: Option<Vec<(String, Source)>>)
    ensures
        match r {
            Some(v) => parse_sources(s@) == Some(sources_view(v@)),
            None => parse_sources(s@) is None,
        },
{
    let chars = str_chars(s);
    proof {
        reveal_strlit("{");
        reveal_strlit("}");
    }
    if chars.len() < 2 || chars[0] != '{' {
        return None;
    }
    if chars.len() == 2 {
        if chars[1] == '}' {
            let r: Vec<(String, Source)> = Vec::new();
            proof {
                assert(sources_view(r@) =~= Seq::<(Seq<char>, Seq<char>)>::empty());
            }
            return Some(r);
        } else {
            proof {
                assert(suffix(s@, 1).len() == 1);
                assert(parse_entry(suffix(s@, 1)) is None) by {
                    if suffix(s@, 1)[0] == '"' {
                        assert(suffix(s@, 1).drop_first().len() == 0);
                    }
                }
            }
            return None;
        }
    }
    proof {
        assert(s@.drop_first() =~= suffix(s@, 1));
    }
    let mut acc: Vec<(String, Source)> = Vec::new();
    let mut i: usize = 1;
    proof {
        assert(sources_view(acc@) =~= Seq::<(Seq<char>, Seq<char>)>::empty());
        if parse_pairs(suffix(s@, 1)) is Some {
            let q = parse_pairs(suffix(s@, 1))->Some_0;
            assert(Seq::<(Seq<char>, Seq<char>)>::empty() + q.0 =~= q.0);
        }
    }
    loop
        invariant
            1 <= i <= chars@.len(),
            chars@ == s@,
            s@.len() > 2,
            s@[0] == '{',
            parse_pairs(suffix(s@, 1)) == prepend_pairs(
                sources_view(acc@),
                parse_pairs(suffix(s@, i as int)),
            ),
        decreases s@.len() - i,
    {
        let ghost si = suffix(s@, i as int);
        match parse_entry_exec(&chars, i) {
            None => {
                proof {
                    assert(parse_pairs(si) is None);
                    assert(s@.drop_first() =~= suffix(s@, 1));
                }
                return None;
            },
            Some((path, src, j)) => {
                let ghost entry = (path@, src.content@);
                let ghost acc0 = acc@;
                proof {
                    assert(parse_entry(si) == Some((entry, suffix(s@, j as int))));
                }
                acc.push((path, src));
                proof {
                    assert(sources_view(acc@) =~= sources_view(acc0) + seq![entry]);
                }
                if j < chars.len() && chars[j] == ',' {
                    proof {
                        let e1 = suffix(s@, j as int);
                        assert(e1.len() >= 1 && e1[0] == ',');
                        assert(e1.len() < si.len());
                        assert(e1.drop_first() =~= suffix(s@, j + 1 as int));
                        assert(parse_pairs(si) == prepend_pairs(
                            seq![entry],
                            parse_pairs(suffix(s@, j + 1 as int)),
                        ));
                        lemma_prepend_pairs_compose(
                            sources_view(acc0),
                            seq![entry],
                            parse_pairs(suffix(s@, j + 1 as int)),
                        );
                        assert(sources_view(acc0) + seq![entry] == sources_view(acc@));
                    }
                    i = j + 1;
                } else {
                    proof {
                        let e1 = suffix(s@, j as int);
                        assert(!(e1.len() >= 1 && e1[0] == ','));
                        assert(parse_pairs(si) == Some((seq![entry], e1)));
                        assert(sources_view(acc0) + seq![entry] == sources_view(acc@));
                        assert(parse_pairs(suffix(s@, 1)) == Some((sources_view(acc@), e1)));
                        assert(s@.drop_first() =~= suffix(s@, 1));
                    }
                    if j == chars.len() - 1 && chars[j] == '}' {
                        proof {
                            let e1 = suffix(s@, j as int);
                            assert(e1.len() == 1 && e1[0] == '}');
                            assert(parse_sources(s@) == Some(sources_view(acc@)));
                        }
                        return Some(acc);
                    } else {
                        proof {
                            let e1 = suffix(s@, j as int);
                            assert(!(e1.len() == 1 && e1[0] == '}'));
                        }
                        return None;
                    }
                }
            },
        }
    }
}

/// Serializes the (path, source) pairs to their sources JSON object; the
/// keys appear in exactly the order of the pairs.
pub fn sources_to_json(v: &Vec<(String, Source)>) -> (r: String)
    ensures
        r@ == jsources(sources_view(v@)),
{
    let mut out = String::new();
    append_sources(&mut out, v);
    proof {
        Seq::<char>::add_empty_left(Seq::<char>::empty(), jsources(sources_view(v@)));
    }
    out
}

/// A compiler-input value for source verification: unlike a key-sorted map,
/// its `sources` keep the caller-supplied order, and serialize in it.
#[derive(Clone, Debug)]
pub struct ZkStandardJsonCompilerInput {
    /// The language of the source files.
    pub language: String,
    /// The source files as explicitly ordered (path, source) pairs.
    pub sources: Vec<(String, Source)>,
    /// The compiler settings.
    pub settings: Settings,
}

/// The mathematical value of a `ZkStandardJsonCompilerInput`.
pub struct ZkStandardJsonCompilerInputView {
    pub language: Seq<char>,
    pub sources: Seq<(Seq<char>, Seq<char>)>,
    pub settings: SettingsView,
}

impl View for ZkStandardJsonCompilerInput {
    type V = ZkStandardJsonCompilerInputView;

    open spec fn view(&self) -> ZkStandardJsonCompilerInputView {
        ZkStandardJsonCompilerInputView {
            language: self.language@,
            sources: sources_view(self.sources@),
            settings: self.settings@,
        }
    }
}

/// The complete compiler-input JSON document: language, then sources in pair
/// order, then settings.
pub open spec fn jinput(v: ZkStandardJsonCompilerInputView) -> Seq<char> {
    "{\"language\":"@ + jstr(v.language) + ",\"sources\":"@ + jsources(v.sources)
        + ",\"settings\":"@ + jsettings(v.settings) + "}"@
}

impl ZkStandardJsonCompilerInput {
    /// Creates a compiler input; the language tag is always the literal
    /// string "Solidity", whatever the sources hold.
    pub fn new(sources: Vec<(String, Source)>, settings: Settings) -> (r: Self)
        ensures
            r@.language == "Solidity"@,
            r@.sources == sources_view(sources@),
            r@.settings == settings@,
    {
        ZkStandardJsonCompilerInput { language: String::from_str("Solidity"), sources, settings }
    }

    /// Serializes the whole compiler input to its JSON document; the keys of
    /// the `sources` object appear in exactly the order of the pairs.
    pub fn to_json_string(&self) -> (r: String)
        ensures
            r@ == jinput(self@),
    {
        let mut out = String::new();
        out.append("{\"language\":");
        append_json_string(&mut out, self.language.as_str());
        let ghost p1 = "{\"language\":"@ + jstr(self@.language);
        proof {
            assert(out@ =~= p1);
        }
        out.append(",\"sources\":");
        append_sources(&mut out, &self.sources);
        let ghost p2 = p1 + ",\"sources\":"@ + jsources(self@.sources);
        proof {
            lemma_concat_associative(p1, ",\"sources\":"@, jsources(self@.sources));
            assert(out@ == p2);
        }
        out.append(",\"settings\":");
        append_settings(&mut out, &self.settings);
        out.append("}");
        let ghost p3 = p2 + ",\"settings\":"@ + jsettings(self@.settings) + "}"@;
        proof {
            lemma_concat_associative(p2, ",\"settings\":"@, jsettings(self@.settings));
            lemma_concat_associative(p2 + ",\"settings\":"@, jsettings(self@.settings), "}"@);
            lemma_concat_associative(p2, ",\"settings\":"@ + jsettings(self@.settings), "}"@);
            assert(out@ == p3);
            assert(p3 == jinput(self@));
        }
        out
    }
}

} // verus!
