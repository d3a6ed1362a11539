//! The template engine: literal token substitution. Each token's
//! placeholder is the literal form `{name}`; tokens are applied one after
//! another in entry order, each pass replacing every occurrence of its
//! placeholder left to right without overlap. Unknown placeholders stay
//! untouched.

use vstd::prelude::*;

verus! {

/// Whether `pat` stands in `doc` at position `i`.
pub open spec fn occurs_at(doc: Seq<char>, pat: Seq<char>, i: int) -> bool {
    0 <= i && i + pat.len() <= doc.len() && doc.subrange(i, i + pat.len()) == pat
}

/// Whether `pat` stands anywhere in `doc`.
pub open spec fn occurs(doc: Seq<char>, pat: Seq<char>) -> bool {
    exists|i: int| occurs_at(doc, pat, i)
}

/// Left-to-right, non-overlapping replacement of every occurrence of
/// `pat` by `val`. An empty pattern never matches and leaves `doc`
/// unchanged.
pub open spec fn spec_replace(doc: Seq<char>, pat: Seq<char>, val: Seq<char>) -> Seq<char>
    decreases doc.len(),
{
    if pat.len() == 0 || doc.len() < pat.len() {
        doc
    } else if doc.subrange(0, pat.len() as int) == pat {
        val + spec_replace(doc.skip(pat.len() as int), pat, val)
    } else {
        seq![doc[0]] + spec_replace(doc.skip(1), pat, val)
    }
}

/// Whether `pat` stands in `doc` at character position `i`.
fn matches_at(doc: &str, doc_len: usize, i: usize, pat: &str, pat_len: usize) -> (r: bool)
    requires
        doc_len == doc@.len(),
        pat_len == pat@.len(),
        i + pat_len <= doc_len,
    ensures
        r == (doc@.subrange(i as int, i + pat@.len()) == pat@),
{
    let mut j: usize = 0;
    while j < pat_len
        invariant
            j <= pat_len,
            i + pat_len <= doc_len,
            doc_len == doc@.len(),
            pat_len == pat@.len(),
            forall|k: int| 0 <= k < j ==> doc@[i + k] == pat@[k],
        decreases pat_len - j,
    {
        if doc.get_char(i + j) != pat.get_char(j) {
            proof {
                assert(doc@.subrange(i as int, i + pat@.len())[j as int] == doc@[i + j]);
            }
            return false;
        }
        j += 1;
    }
    proof {
        assert(doc@.subrange(i as int, i + pat@.len()) =~= pat@);
    }
    true
}

/// Replace every occurrence of `pat` in `doc` by `val`, left to right
/// without overlap, exactly as `spec_replace` describes.
pub fn replace_all(doc: &str, pat: &str, val: &str) -> (r: String)
    ensures
        r@ == spec_replace(doc@, pat@, val@),
{
    let doc_len = doc.unicode_len();
    let pat_len = pat.unicode_len();
    if pat_len == 0 {
        return String::from_str(doc);
    }
    let mut out = String::new();
    let mut i: usize = 0;
    proof {
        assert(doc@.skip(0) =~= doc@);
        assert(out@ + spec_replace(doc@, pat@, val@) =~= spec_replace(doc@, pat@, val@));
    }
    while pat_len <= doc_len && i <= doc_len - pat_len
        invariant
            i <= doc_len,
            doc_len == doc@.len(),
            pat_len == pat@.len(),
            pat_len >= 1,
            spec_replace(doc@, pat@, val@) == out@ + spec_replace(doc@.skip(i as int), pat@, val@),
        decreases doc_len - i,
    {
        let ghost old_out = out@;
        let ghost t = doc@.skip(i as int);
        if matches_at(doc, doc_len, i, pat, pat_len) {
            out.append(val);
            proof {
                assert(t.subrange(0, pat@.len() as int) =~= doc@.subrange(i as int, i + pat@.len()));
                assert(t.skip(pat@.len() as int) =~= doc@.skip(i + pat_len));
                assert(spec_replace(t, pat@, val@) == val@ + spec_replace(
                    doc@.skip(i + pat_len),
                    pat@,
                    val@,
                ));
                assert(out@ + spec_replace(doc@.skip(i + pat_len), pat@, val@) =~= old_out
                    + spec_replace(t, pat@, val@));
            }
            i += pat_len;
        } else {
            let c = doc.substring_char(i, i + 1);
            out.append(c);
            proof {
                assert(t.subrange(0, pat@.len() as int) =~= doc@.subrange(i as int, i + pat@.len()));
                assert(seq![t[0]] =~= c@);
                assert(t.skip(1) =~= doc@.skip(i + 1));
                assert(spec_replace(t, pat@, val@) == seq![t[0]] + spec_replace(
                    doc@.skip(i + 1),
                    pat@,
                    val@,
                ));
                assert(out@ + spec_replace(doc@.skip(i + 1), pat@, val@) =~= old_out + spec_replace(
                    t,
                    pat@,
                    val@,
                ));
            }
            i += 1;
        }
    }
    let ghost old_out = out@;
    let tail = doc.substring_char(i, doc_len);
    out.append(tail);
    proof {
        assert(doc@.skip(i as int) =~= tail@);
        assert(spec_replace(tail@, pat@, val@) == tail@);
        assert(out@ =~= old_out + tail@);
    }
    out
}

/// The literal placeholder form of a token name.
pub open spec fn placeholder(name: Seq<char>) -> Seq<char> {
    seq!['{'] + name + seq!['}']
}

/// A token map: named substitution values, applied in entry order.
pub struct TokenMap {
    pub entries: Vec<(String, String)>,
}

impl View for TokenMap {
    type V = Seq<(Seq<char>, Seq<char>)>;

    open spec fn view(&self) -> Seq<(Seq<char>, Seq<char>)> {
        self.entries@.map_values(|e: (String, String)| (e.0@, e.1@))
    }
}

/// The document after every entry was applied in order, each pass
/// replacing all occurrences of that entry's placeholder.
pub open spec fn spec_render(doc: Seq<char>, entries: Seq<(Seq<char>, Seq<char>)>) -> Seq<char>
    decreases entries.len(),
{
    if entries.len() == 0 {
        doc
    } else {
        spec_render(spec_replace(doc, placeholder(entries[0].0), entries[0].1), entries.skip(1))
    }
}

impl TokenMap {
    /// An empty token map.
    pub fn new() -> (r: TokenMap)
        ensures
            r@ == Seq::<(Seq<char>, Seq<char>)>::empty(),
    {
        let r = TokenMap { entries: Vec::new() };
        proof {
            assert(r@ =~= Seq::<(Seq<char>, Seq<char>)>::empty());
        }
        r
    }

    /// Add one token at the end of the application order.
    pub fn insert(&mut self, name: &str, value: String)
        ensures
            final(self)@ == old(self)@.push((name@, value@)),
    {
        let ghost old_entries = self.entries@;
        self.entries.push((String::from_str(name), value));
        proof {
            assert(self@ =~= old_entries.map_values(|e: (String, String)| (e.0@, e.1@)).push(
                (name@, self.entries@.last().1@),
            ));
        }
    }
}

/// Substitute every token of the map into the template, exactly as
/// `spec_render` describes.
pub fn render_template(template: &str, tokens: &TokenMap) -> (r: String)
    ensures
        r@ == spec_render(template@, tokens@),
{
    let mut doc = String::from_str(template);
    let mut i: usize = 0;
    proof {
        assert(tokens@.skip(0) =~= tokens@);
    }
    while i < tokens.entries.len()
        invariant
            i <= tokens.entries.len(),
            spec_render(template@, tokens@) == spec_render(doc@, tokens@.skip(i as int)),
        decreases tokens.entries.len() - i,
    {
        let ghost t = tokens@.skip(i as int);
        let name = &tokens.entries[i].0;
        let value = &tokens.entries[i].1;
        let pat = String::from_str("{").concat(name.as_str()).concat("}");
        proof {
            reveal_strlit("{");
            reveal_strlit("}");
            assert(pat@ =~= placeholder(name@));
            assert(t[0] == tokens@[i as int]);
            assert(t.skip(1) =~= tokens@.skip(i + 1));
        }
        doc = replace_all(doc.as_str(), pat.as_str(), value.as_str());
        i += 1;
    }
    proof {
        assert(tokens@.skip(tokens@.len() as int) =~= Seq::<(Seq<char>, Seq<char>)>::empty());
    }
    doc
}

/// A pattern that stands nowhere in the document leaves it unchanged.
pub proof fn lemma_replace_absent(doc: Seq<char>, pat: Seq<char>, val: Seq<char>)
    requires
        !occurs(doc, pat),
    ensures
        spec_replace(doc, pat, val) == doc,
    decreases doc.len(),
{
    if pat.len() == 0 || doc.len() < pat.len() {
    } else if doc.subrange(0, pat.len() as int) == pat {
        assert(occurs_at(doc, pat, 0));
        assert(false);
    } else {
        assert forall|i: int| !occurs_at(doc.skip(1), pat, i) by {
            if occurs_at(doc.skip(1), pat, i) {
                assert(doc.skip(1).subrange(i, i + pat.len()) =~= doc.subrange(
                    i + 1,
                    i + 1 + pat.len(),
                ));
                assert(occurs_at(doc, pat, i + 1));
            }
        }
        lemma_replace_absent(doc.skip(1), pat, val);
        assert(seq![doc[0]] + doc.skip(1) =~= doc);
    }
}

/// Substitution is the identity on a document in which no entry's
/// placeholder occurs; in particular a template with no placeholders
/// renders as itself.
pub proof fn lemma_render_absent(doc: Seq<char>, entries: Seq<(Seq<char>, Seq<char>)>)
    requires
        forall|k: int|
            0 <= k < entries.len() ==> !occurs(doc, placeholder(#[trigger] entries[k].0)),
    ensures
        spec_render(doc, entries) == doc,
    decreases entries.len(),
{
    if entries.len() > 0 {
        lemma_replace_absent(doc, placeholder(entries[0].0), entries[0].1);
        assert(forall|k: int|
            0 <= k < entries.skip(1).len() ==> entries.skip(1)[k] == entries[k + 1]);
        lemma_render_absent(doc, entries.skip(1));
    }
}

/// A document without any opening brace holds no placeholder at all, so
/// substitution leaves it unchanged whatever the token map holds.
pub proof fn lemma_render_no_braces(doc: Seq<char>, entries: Seq<(Seq<char>, Seq<char>)>)
    requires
        forall|j: int| 0 <= j < doc.len() ==> doc[j] != '{',
    ensures
        spec_render(doc, entries) == doc,
{
    assert forall|k: int|
        0 <= k < entries.len() implies !occurs(doc, placeholder(#[trigger] entries[k].0)) by {
        let pat = placeholder(entries[k].0);
        if occurs(doc, pat) {
            let i = choose|i: int| occurs_at(doc, pat, i);
            assert(doc.subrange(i, i + pat.len())[0] == doc[i]);
            assert(doc[i] == '{');
        }
    }
    lemma_render_absent(doc, entries);
}

} // verus!
