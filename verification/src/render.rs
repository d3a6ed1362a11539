//! The fragment renderer: one HTML fragment per card, concatenated in
//! input order. Field contents are embedded verbatim: no HTML escaping
//! and no URL encoding is performed, deliberately.

use vstd::prelude::*;

use crate::card::models_of;
use crate::card::Card;
use crate::card::CardModel;
use crate::decimal::dec_digits;
use crate::decimal::format_u64;
use crate::state::class_name;

verus! {

/// The HTML fragment of one card: a lookup link built from the primary
/// term, a state tag, the term, the annotation and translation joined
/// with a separator, and the two counters.
pub open spec fn fragment_of(c: CardModel) -> Seq<char>
    recommends
        c.wf(),
{
    "<a href='https://jisho.org/search/"@ + c.fields[0] + "' class='card-link'><div class='card card-"@
        + class_name(c.queue) + "'>"@ + c.fields[0]
        + "<div class='card-hover'><div class='card-meaning'>"@ + c.fields[1] + "; "@ + c.fields[2]
        + "</div>\n                        reviews: "@ + dec_digits(c.reps as nat)
        + "<br/>\n                        lapses: "@ + dec_digits(c.lapses as nat)
        + "<br/>\n                    </div></div></a>\n"@
}

/// The fragments of a card sequence, concatenated in input order.
pub open spec fn fragments_of(cards: Seq<CardModel>) -> Seq<char>
    decreases cards.len(),
{
    if cards.len() == 0 {
        Seq::empty()
    } else {
        fragments_of(cards.drop_last()) + fragment_of(cards.last())
    }
}

/// Render the HTML fragment of one card, exactly as `fragment_of`
/// describes.
pub fn render_fragment(card: &Card) -> (r: String)
    requires
        card@.wf(),
    ensures
        r@ == fragment_of(card@),
{
    let s = String::from_str("<a href='https://jisho.org/search/");
    let s = s.concat(card.term().as_str());
    let s = s.concat("' class='card-link'><div class='card card-");
    let s = s.concat(card.queue.class());
    let s = s.concat("'>");
    let s = s.concat(card.term().as_str());
    let s = s.concat("<div class='card-hover'><div class='card-meaning'>");
    let s = s.concat(card.annotation().as_str());
    let s = s.concat("; ");
    let s = s.concat(card.translation().as_str());
    let s = s.concat("</div>\n                        reviews: ");
    let s = s.concat(format_u64(card.reps as u64).as_str());
    let s = s.concat("<br/>\n                        lapses: ");
    let s = s.concat(format_u64(card.lapses as u64).as_str());
    let s = s.concat("<br/>\n                    </div></div></a>\n");
    s
}

/// Render every card's fragment and concatenate them in input order.
pub fn render_fragments(cards: &Vec<Card>) -> (r: String)
    requires
        forall|j: int| 0 <= j < cards@.len() ==> (#[trigger] cards@[j])@.wf(),
    ensures
        r@ == fragments_of(models_of(cards@)),
{
    let ghost models = models_of(cards@);
    let mut out = String::new();
    let mut i: usize = 0;
    proof {
        assert(models.take(0) =~= Seq::<CardModel>::empty());
    }
    while i < cards.len()
        invariant
            i <= cards.len(),
            models == models_of(cards@),
            forall|j: int| 0 <= j < cards@.len() ==> (#[trigger] cards@[j])@.wf(),
            out@ == fragments_of(models.take(i as int)),
        decreases cards.len() - i,
    {
        let frag = render_fragment(&cards[i]);
        out.append(frag.as_str());
        proof {
            assert(models.take(i + 1).drop_last() =~= models.take(i as int));
            assert(models.take(i + 1).last() == models[i as int]);
        }
        i += 1;
    }
    proof {
        assert(models.take(cards@.len() as int) =~= models);
    }
    out
}

} // verus!
