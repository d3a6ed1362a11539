//! Record extraction and normalization: splitting the raw delimited field
//! blob, classifying the state code, and building the normalized card.

use vstd::prelude::*;

use crate::state::classify;
use crate::state::ExtractError;
use crate::state::Queue;

verus! {

/// The non-printable character separating fields inside a raw record's
/// field blob.
pub const FIELD_SEP: char = '\x1f';

/// One raw stored row, as handed over by the record source.
pub struct RawRecord {
    /// The delimited multi-field blob.
    pub flds: String,
    /// The raw scheduling-state code.
    pub queue_code: u8,
    /// Repetition counter, passed through unchanged.
    pub reps: u32,
    /// Lapse counter, passed through unchanged.
    pub lapses: u32,
}

/// The mathematical model of a raw row.
pub struct RawRecordModel {
    pub flds: Seq<char>,
    pub queue_code: u8,
    pub reps: u32,
    pub lapses: u32,
}

impl View for RawRecord {
    type V = RawRecordModel;

    open spec fn view(&self) -> RawRecordModel {
        RawRecordModel {
            flds: self.flds@,
            queue_code: self.queue_code,
            reps: self.reps,
            lapses: self.lapses,
        }
    }
}

/// One normalized card: the split field strings (order is meaningful; the
/// first three are term, annotation, translation), the classified state,
/// and the two counters.
pub struct Card {
    pub fields: Vec<String>,
    pub queue: Queue,
    pub reps: u32,
    pub lapses: u32,
}

/// The mathematical model of a card.
pub struct CardModel {
    pub fields: Seq<Seq<char>>,
    pub queue: Queue,
    pub reps: u32,
    pub lapses: u32,
}

impl View for Card {
    type V = CardModel;

    open spec fn view(&self) -> CardModel {
        CardModel {
            fields: self.fields@.map_values(|f: String| f@),
            queue: self.queue,
            reps: self.reps,
            lapses: self.lapses,
        }
    }
}

impl CardModel {
    /// A well-formed card has at least the three fields addressed by fixed
    /// semantic roles.
    pub open spec fn wf(self) -> bool {
        self.fields.len() >= 3
    }
}

impl Card {
    /// The primary term (first field).
    pub fn term(&self) -> (r: &String)
        requires
            self@.wf(),
        ensures
            r@ == self@.fields[0],
    {
        &self.fields[0]
    }

    /// The secondary annotation (second field).
    pub fn annotation(&self) -> (r: &String)
        requires
            self@.wf(),
        ensures
            r@ == self@.fields[1],
    {
        &self.fields[1]
    }

    /// The translation (third field).
    pub fn translation(&self) -> (r: &String)
        requires
            self@.wf(),
        ensures
            r@ == self@.fields[2],
    {
        &self.fields[2]
    }
}

/// Splitting a character sequence on a separator, keeping empty fields:
/// the empty sequence yields one empty field, so the result always holds
/// at least one field.
pub open spec fn spec_split(s: Seq<char>, sep: char) -> Seq<Seq<char>>
    decreases s.len(),
{
    if s.len() == 0 {
        seq![Seq::<char>::empty()]
    } else if s[0] == sep {
        seq![Seq::<char>::empty()] + spec_split(s.skip(1), sep)
    } else {
        let rest = spec_split(s.skip(1), sep);
        seq![seq![s[0]] + rest[0]] + rest.skip(1)
    }
}

/// Joining fields with the separator between consecutive fields.
pub open spec fn spec_join(fields: Seq<Seq<char>>, sep: char) -> Seq<char>
    decreases fields.len(),
{
    if fields.len() == 0 {
        Seq::empty()
    } else if fields.len() == 1 {
        fields[0]
    } else {
        fields[0] + seq![sep] + spec_join(fields.skip(1), sep)
    }
}

/// Splitting always produces at least one field.
pub proof fn lemma_split_len(s: Seq<char>, sep: char)
    ensures
        spec_split(s, sep).len() >= 1,
    decreases s.len(),
{
    if s.len() != 0 {
        lemma_split_len(s.skip(1), sep);
    }
}

/// Splitting on a separator and rejoining with the same separator
/// reproduces the original sequence.
pub proof fn lemma_split_join_roundtrip(s: Seq<char>, sep: char)
    ensures
        spec_join(spec_split(s, sep), sep) == s,
    decreases s.len(),
{
    if s.len() == 0 {
        assert(spec_join(spec_split(s, sep), sep) =~= s);
    } else if s[0] == sep {
        lemma_split_join_roundtrip(s.skip(1), sep);
        lemma_split_len(s.skip(1), sep);
        let f = seq![Seq::<char>::empty()] + spec_split(s.skip(1), sep);
        assert(f.skip(1) =~= spec_split(s.skip(1), sep));
        assert(spec_join(f, sep) =~= s);
    } else {
        lemma_split_join_roundtrip(s.skip(1), sep);
        lemma_split_len(s.skip(1), sep);
        let rest = spec_split(s.skip(1), sep);
        let f = seq![seq![s[0]] + rest[0]] + rest.skip(1);
        if rest.len() == 1 {
            assert(spec_join(rest, sep) == rest[0]);
            assert(spec_join(f, sep) =~= s);
        } else {
            assert(f.skip(1) =~= rest.skip(1));
            assert(spec_join(f, sep) == f[0] + seq![sep] + spec_join(rest.skip(1), sep));
            assert(spec_join(f, sep) =~= seq![s[0]] + (rest[0] + seq![sep] + spec_join(
                rest.skip(1),
                sep,
            )));
            assert(spec_join(f, sep) =~= s);
        }
    }
}

/// Splitting a sequence whose first separator stands at `k` yields the
/// prefix before `k` as the first field, followed by the split of what
/// stands after `k`.
proof fn lemma_split_at_first_sep(s: Seq<char>, sep: char, k: int)
    requires
        0 <= k < s.len(),
        s[k] == sep,
        forall|j: int| 0 <= j < k ==> s[j] != sep,
    ensures
        spec_split(s, sep) == seq![s.take(k)] + spec_split(s.skip(k + 1), sep),
    decreases k,
{
    if k == 0 {
        assert(s.take(0) =~= Seq::<char>::empty());
        assert(spec_split(s, sep) =~= seq![s.take(0)] + spec_split(s.skip(1), sep));
    } else {
        let t = s.skip(1);
        assert(t[k - 1] == sep);
        lemma_split_at_first_sep(t, sep, k - 1);
        lemma_split_len(t.skip(k), sep);
        let rest = spec_split(t, sep);
        assert(rest == seq![t.take(k - 1)] + spec_split(t.skip(k), sep));
        assert(rest[0] == t.take(k - 1));
        assert(seq![s[0]] + rest[0] =~= s.take(k));
        assert(rest.skip(1) =~= spec_split(t.skip(k), sep));
        assert(t.skip(k) =~= s.skip(k + 1));
        assert(spec_split(s, sep) =~= seq![s.take(k)] + spec_split(s.skip(k + 1), sep));
    }
}

/// Splitting a sequence without the separator yields that one field.
proof fn lemma_split_no_sep(s: Seq<char>, sep: char)
    requires
        forall|j: int| 0 <= j < s.len() ==> s[j] != sep,
    ensures
        spec_split(s, sep) == seq![s],
    decreases s.len(),
{
    if s.len() == 0 {
        assert(s =~= Seq::<char>::empty());
        assert(spec_split(s, sep) =~= seq![s]);
    } else {
        lemma_split_no_sep(s.skip(1), sep);
        let rest = spec_split(s.skip(1), sep);
        assert(rest[0] == s.skip(1));
        assert(rest.skip(1) =~= Seq::<Seq<char>>::empty());
        assert(seq![s[0]] + s.skip(1) =~= s);
        assert(seq![seq![s[0]] + rest[0]] + rest.skip(1) =~= seq![s]);
    }
}

/// Split a string on a separator character, keeping empty fields, exactly
/// as `spec_split` describes.
pub fn split_on(s: &str, sep: char) -> (r: Vec<String>)
    ensures
        r@.map_values(|f: String| f@) == spec_split(s@, sep),
{
    let len = s.unicode_len();
    let mut fields: Vec<String> = Vec::new();
    let mut start: usize = 0;
    let mut i: usize = 0;
    proof {
        assert(s@.skip(0) =~= s@);
        assert(fields@.map_values(|f: String| f@) =~= Seq::<Seq<char>>::empty());
        assert(fields@.map_values(|f: String| f@) + spec_split(s@, sep) =~= spec_split(s@, sep));
    }
    while i < len
        invariant
            start <= i <= len,
            len == s@.len(),
            forall|j: int| start <= j < i ==> s@[j] != sep,
            spec_split(s@, sep) == fields@.map_values(|f: String| f@) + spec_split(
                s@.skip(start as int),
                sep,
            ),
        decreases len - i,
    {
        if s.get_char(i) == sep {
            let ghost old_fields = fields@;
            let field = String::from_str(s.substring_char(start, i));
            fields.push(field);
            proof {
                let t = s@.skip(start as int);
                lemma_split_at_first_sep(t, sep, i - start);
                assert(t.take(i - start) =~= field@);
                assert(t.skip(i - start + 1) =~= s@.skip(i + 1));
                assert(fields@.map_values(|f: String| f@) =~= old_fields.map_values(
                    |f: String| f@,
                ) + seq![field@]);
                assert(fields@.map_values(|f: String| f@) + spec_split(s@.skip(i + 1), sep)
                    =~= old_fields.map_values(|f: String| f@) + spec_split(t, sep));
            }
            start = i + 1;
        }
        i += 1;
    }
    let ghost old_fields = fields@;
    let field = String::from_str(s.substring_char(start, len));
    fields.push(field);
    proof {
        lemma_split_no_sep(s@.skip(start as int), sep);
        assert(s@.skip(start as int) =~= field@);
        assert(fields@.map_values(|f: String| f@) =~= old_fields.map_values(|f: String| f@)
            + seq![field@]);
        assert(fields@.map_values(|f: String| f@) =~= spec_split(s@, sep));
    }
    fields
}

/// What extraction makes of one raw row: classify the state code first
/// (an unmapped code is `InvalidStateCode`), then split the field blob
/// (fewer than three fields is `MalformedRecord`).
pub open spec fn spec_extract(r: RawRecordModel) -> Result<CardModel, ExtractError> {
    match classify(r.queue_code) {
        None => Err(ExtractError::InvalidStateCode),
        Some(q) => {
            let fs = spec_split(r.flds, FIELD_SEP);
            if fs.len() < 3 {
                Err(ExtractError::MalformedRecord)
            } else {
                Ok(
                    CardModel {
                        fields: fs,
                        queue: q,
                        reps: r.reps,
                        lapses: r.lapses,
                    },
                )
            }
        },
    }
}

/// The model of an extraction result.
pub open spec fn model_result(r: Result<Card, ExtractError>) -> Result<CardModel, ExtractError> {
    match r {
        Ok(c) => Ok(c@),
        Err(e) => Err(e),
    }
}

/// Normalize one raw row into a card, or fail exactly as `spec_extract`
/// describes.
pub fn extract_card(rec: &RawRecord) -> (r: Result<Card, ExtractError>)
    ensures
        model_result(r) == spec_extract(rec@),
        r matches Ok(card) ==> card@.wf(),
{
    let queue = match Queue::try_from(rec.queue_code) {
        Ok(q) => q,
        Err(e) => {
            return Err(e);
        },
    };
    let fields = split_on(rec.flds.as_str(), FIELD_SEP);
    if fields.len() < 3 {
        return Err(ExtractError::MalformedRecord);
    }
    let card = Card { fields, queue, reps: rec.reps, lapses: rec.lapses };
    Ok(card)
}

/// `rest` with one extracted card put in front, errors passed through.
pub open spec fn cons_result(c: CardModel, rest: Result<Seq<CardModel>, ExtractError>) -> Result<
    Seq<CardModel>,
    ExtractError,
> {
    match rest {
        Ok(cs) => Ok(seq![c] + cs),
        Err(e) => Err(e),
    }
}

/// What extraction makes of a whole row sequence: the cards in input
/// order, or the error of the first failing row.
pub open spec fn spec_extract_all(rows: Seq<RawRecordModel>) -> Result<
    Seq<CardModel>,
    ExtractError,
>
    decreases rows.len(),
{
    if rows.len() == 0 {
        Ok(Seq::empty())
    } else {
        match spec_extract(rows[0]) {
            Err(e) => Err(e),
            Ok(c) => cons_result(c, spec_extract_all(rows.skip(1))),
        }
    }
}

/// `rest` with an already-extracted prefix put in front, errors passed
/// through.
pub open spec fn combine(prefix: Seq<CardModel>, rest: Result<Seq<CardModel>, ExtractError>)
    -> Result<Seq<CardModel>, ExtractError> {
    match rest {
        Ok(cs) => Ok(prefix + cs),
        Err(e) => Err(e),
    }
}

proof fn lemma_combine_empty(rest: Result<Seq<CardModel>, ExtractError>)
    ensures
        combine(Seq::empty(), rest) == rest,
{
    match rest {
        Ok(cs) => {
            assert(Seq::<CardModel>::empty() + cs =~= cs);
        },
        Err(_) => {
        },
    }
}

proof fn lemma_combine_snoc(
    prefix: Seq<CardModel>,
    c: CardModel,
    rest: Result<Seq<CardModel>, ExtractError>,
)
    ensures
        combine(prefix, cons_result(c, rest)) == combine(prefix.push(c), rest),
{
    match rest {
        Ok(cs) => {
            assert(prefix + (seq![c] + cs) =~= prefix.push(c) + cs);
        },
        Err(_) => {
        },
    }
}

/// The models of a card vector.
pub open spec fn models_of(cards: Seq<Card>) -> Seq<CardModel> {
    cards.map_values(|c: Card| c@)
}

/// The model of a whole extraction result.
pub open spec fn model_vec_result(r: Result<Vec<Card>, ExtractError>) -> Result<
    Seq<CardModel>,
    ExtractError,
> {
    match r {
        Ok(cs) => Ok(models_of(cs@)),
        Err(e) => Err(e),
    }
}

/// Normalize every raw row, in order, aborting on the first failing row,
/// exactly as `spec_extract_all` describes.
pub fn extract_cards(rows: &Vec<RawRecord>) -> (r: Result<Vec<Card>, ExtractError>)
    ensures
        model_vec_result(r) == spec_extract_all(rows@.map_values(|x: RawRecord| x@)),
        r matches Ok(cards) ==> forall|j: int| 0 <= j < cards@.len() ==> (#[trigger] cards@[j])@.wf(),
{
    let ghost models = rows@.map_values(|x: RawRecord| x@);
    let mut cards: Vec<Card> = Vec::new();
    let mut i: usize = 0;
    proof {
        lemma_combine_empty(spec_extract_all(models));
        assert(models.skip(0) =~= models);
    }
    while i < rows.len()
        invariant
            i <= rows.len(),
            models == rows@.map_values(|x: RawRecord| x@),
            spec_extract_all(models) == combine(
                models_of(cards@),
                spec_extract_all(models.skip(i as int)),
            ),
            forall|j: int| 0 <= j < cards@.len() ==> (#[trigger] cards@[j])@.wf(),
        decreases rows.len() - i,
    {
        let ghost old_cards = cards@;
        let ghost t = models.skip(i as int);
        proof {
            assert(t[0] == models[i as int]);
            assert(t.skip(1) =~= models.skip(i + 1));
        }
        match extract_card(&rows[i]) {
            Err(e) => {
                proof {
                    assert(spec_extract_all(t) == Err::<Seq<CardModel>, ExtractError>(e));
                }
                return Err(e);
            },
            Ok(card) => {
                proof {
                    assert(spec_extract(models[i as int]) == Ok::<CardModel, ExtractError>(card@));
                    assert(spec_extract_all(t) == cons_result(
                        card@,
                        spec_extract_all(models.skip(i + 1)),
                    ));
                    lemma_combine_snoc(
                        models_of(old_cards),
                        card@,
                        spec_extract_all(models.skip(i + 1)),
                    );
                }
                cards.push(card);
                proof {
                    assert(models_of(cards@) =~= models_of(old_cards).push(card@));
                }
            },
        }
        i += 1;
    }
    proof {
        assert(models.skip(i as int) =~= Seq::<RawRecordModel>::empty());
        assert(spec_extract_all(models) == combine(
            models_of(cards@),
            Ok::<Seq<CardModel>, ExtractError>(Seq::empty()),
        ));
        assert(models_of(cards@) + Seq::<CardModel>::empty() =~= models_of(cards@));
    }
    Ok(cards)
}

} // verus!
