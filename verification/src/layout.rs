use vstd::prelude::*;
use crate::constants::{RECT_COUNT, RECT_HEIGHT, RECT_PADDING, RECT_WIDTH};
use crate::geometry::{lemma_overlap_symmetric, Rect};
use crate::rng::xorshift_next;

verus! {

/// How many candidate positions are drawn for one rectangle before the
/// generator gives up.
pub const MAX_PLACEMENT_ATTEMPTS: u32 = 1000;

/// A placed rectangle with its label, as the contracts see it.
pub type Placed = (Rect, Seq<char>);

/// The letters a label starts with.
pub open spec fn label_letters() -> Seq<char> {
    seq![
        'a', 'b', 'c', 'd', 'e', 'f', 'g', 'h', 'i', 'j', 'k', 'l', 'm', 'n', 'o', 'p', 'q',
        'r', 's', 't', 'u', 'v', 'w', 'x', 'y', 'z',
    ]
}

/// The digits a label ends with.
pub open spec fn label_digits() -> Seq<char> {
    seq!['1', '2', '3', '4', '5', '6', '7', '8', '9']
}

/// The number of positions along an axis of length `extent` at which a
/// rectangle of length `size` may start: never fewer than one.
pub open spec fn span(extent: int, size: int) -> int {
    if extent - size > 1 {
        extent - size
    } else {
        1
    }
}

/// The rectangle placed from the two draws `x_draw` and `y_draw`.
pub open spec fn candidate_rect(x_draw: u64, y_draw: u64, width: i32, height: i32) -> Rect {
    let x = x_draw as int % span(width as int, RECT_WIDTH as int);
    let y = y_draw as int % span(height as int, RECT_HEIGHT as int);
    Rect {
        left: x as i32,
        top: y as i32,
        right: (x + RECT_WIDTH) as i32,
        bottom: (y + RECT_HEIGHT) as i32,
    }
}

/// The label made from the two draws `letter_draw` and `digit_draw`.
pub open spec fn label_for(letter_draw: u64, digit_draw: u64) -> Seq<char> {
    seq![
        label_letters()[(letter_draw % 26) as int],
        label_digits()[(digit_draw % 9) as int],
    ]
}

/// `rect` comes within the padding of some rectangle of `placed`.
pub open spec fn overlaps_any(rect: Rect, placed: Seq<Placed>) -> bool {
    exists|i: int| 0 <= i < placed.len() && rect.overlaps_padded(#[trigger] placed[i].0, RECT_PADDING as int)
}

/// Some rectangle of `placed` already carries `label`.
pub open spec fn label_used(label: Seq<char>, placed: Seq<Placed>) -> bool {
    exists|i: int| 0 <= i < placed.len() && #[trigger] placed[i].1 == label
}

/// One placement attempt from generator state `s`: two draws give the
/// position; if it is free, two more draws give the label, which is kept
/// when no placed rectangle carries it. Returns the state afterwards and the
/// new entry, if any.
pub open spec fn try_place(s: u64, placed: Seq<Placed>, width: i32, height: i32) -> (u64, Option<Placed>) {
    let s1 = xorshift_next(s);
    let s2 = xorshift_next(s1);
    let rect = candidate_rect(s1, s2, width, height);
    if overlaps_any(rect, placed) {
        (s2, None)
    } else {
        let s3 = xorshift_next(s2);
        let s4 = xorshift_next(s3);
        let label = label_for(s3, s4);
        if label_used(label, placed) {
            (s4, None)
        } else {
            (s4, Some((rect, label)))
        }
    }
}

/// Up to `attempts` placement attempts, stopping at the first that succeeds.
pub open spec fn place_with_retries(
    s: u64,
    placed: Seq<Placed>,
    width: i32,
    height: i32,
    attempts: nat,
) -> (u64, Option<Placed>)
    decreases attempts,
{
    if attempts == 0 {
        (s, None)
    } else {
        let (s1, entry) = try_place(s, placed, width, height);
        if entry is Some {
            (s1, entry)
        } else {
            place_with_retries(s1, placed, width, height, (attempts - 1) as nat)
        }
    }
}

/// Places up to `slots` more rectangles after `placed`, stopping as soon as
/// one rectangle cannot be placed within the attempt limit.
pub open spec fn generate_from(
    s: u64,
    placed: Seq<Placed>,
    width: i32,
    height: i32,
    slots: nat,
) -> (u64, Seq<Placed>)
    decreases slots,
{
    if slots == 0 {
        (s, placed)
    } else {
        let (s1, entry) = place_with_retries(s, placed, width, height, MAX_PLACEMENT_ATTEMPTS as nat);
        match entry {
            Some(e) => generate_from(s1, placed.push(e), width, height, (slots - 1) as nat),
            None => (s1, placed),
        }
    }
}

/// The generator state afterwards and the labelled rectangles that the
/// generator produces from state `seed` for an area of `width` by `height`.
pub open spec fn generated_layout(seed: u64, width: i32, height: i32) -> (u64, Seq<Placed>) {
    generate_from(seed, Seq::empty(), width, height, RECT_COUNT as nat)
}

/// `rect` has the fixed size and starts inside the area of `width` by `height`.
pub open spec fn in_area(rect: Rect, width: i32, height: i32) -> bool {
    &&& 0 <= rect.left < span(width as int, RECT_WIDTH as int)
    &&& rect.right == rect.left + RECT_WIDTH
    &&& 0 <= rect.top < span(height as int, RECT_HEIGHT as int)
    &&& rect.bottom == rect.top + RECT_HEIGHT
}

/// `label` is a lower-case letter followed by a digit from 1 to 9.
pub open spec fn is_label(label: Seq<char>) -> bool {
    &&& label.len() == 2
    &&& label_letters().contains(label[0])
    &&& label_digits().contains(label[1])
}

/// Every rectangle has the fixed size and lies in the area, every label is
/// well formed, no two rectangles come within the padding of each other,
/// and no two carry the same label.
pub open spec fn valid_layout(placed: Seq<Placed>, width: i32, height: i32) -> bool {
    &&& forall|i: int|
        0 <= i < placed.len() ==> in_area(#[trigger] placed[i].0, width, height)
            && is_label(placed[i].1)
    &&& forall|i: int, j: int|
        0 <= i < placed.len() && 0 <= j < placed.len() && i != j ==> !(#[trigger] placed[i].0).overlaps_padded(
            #[trigger] placed[j].0,
            RECT_PADDING as int,
        ) && placed[i].1 != placed[j].1
}

/// A successful attempt extends a valid layout to a valid layout.
pub proof fn lemma_try_place_valid(s: u64, placed: Seq<Placed>, width: i32, height: i32)
    requires
        valid_layout(placed, width, height),
    ensures
        try_place(s, placed, width, height).1 matches Some(e) ==> valid_layout(
            placed.push(e),
            width,
            height,
        ),
{
    let s1 = xorshift_next(s);
    let s2 = xorshift_next(s1);
    let rect = candidate_rect(s1, s2, width, height);
    let s3 = xorshift_next(s2);
    let s4 = xorshift_next(s3);
    let label = label_for(s3, s4);
    if !overlaps_any(rect, placed) && !label_used(label, placed) {
        let next = placed.push((rect, label));
        assert(label_letters().contains(label[0])) by {
            assert(label_letters()[(s3 % 26) as int] == label[0]);
        }
        assert(label_digits().contains(label[1])) by {
            assert(label_digits()[(s4 % 9) as int] == label[1]);
        }
        assert forall|i: int, j: int|
            0 <= i < next.len() && 0 <= j < next.len() && i != j implies !(
            #[trigger] next[i].0).overlaps_padded(#[trigger] next[j].0, RECT_PADDING as int)
            && next[i].1 != next[j].1 by {
            if i == placed.len() {
                assert(!rect.overlaps_padded(placed[j].0, RECT_PADDING as int));
                assert(placed[j].1 != label);
            } else if j == placed.len() {
                assert(!rect.overlaps_padded(placed[i].0, RECT_PADDING as int));
                lemma_overlap_symmetric(rect, placed[i].0, RECT_PADDING as int);
                assert(placed[i].1 != label);
            }
        }
    }
}

/// Retried placement extends a valid layout to a valid layout.
pub proof fn lemma_place_with_retries_valid(
    s: u64,
    placed: Seq<Placed>,
    width: i32,
    height: i32,
    attempts: nat,
)
    requires
        valid_layout(placed, width, height),
    ensures
        place_with_retries(s, placed, width, height, attempts).1 matches Some(e) ==> valid_layout(
            placed.push(e),
            width,
            height,
        ),
    decreases attempts,
{
    if attempts > 0 {
        lemma_try_place_valid(s, placed, width, height);
        let (s1, entry) = try_place(s, placed, width, height);
        if entry is None {
            lemma_place_with_retries_valid(s1, placed, width, height, (attempts - 1) as nat);
        }
    }
}

/// Generation keeps what was placed, adds at most `slots` entries and keeps
/// the layout valid.
pub proof fn lemma_generate_from_valid(
    s: u64,
    placed: Seq<Placed>,
    width: i32,
    height: i32,
    slots: nat,
)
    requires
        valid_layout(placed, width, height),
    ensures
        valid_layout(generate_from(s, placed, width, height, slots).1, width, height),
        placed.len() <= generate_from(s, placed, width, height, slots).1.len() <= placed.len()
            + slots,
        generate_from(s, placed, width, height, slots).1.subrange(0, placed.len() as int)
            == placed,
    decreases slots,
{
    if slots > 0 {
        lemma_place_with_retries_valid(s, placed, width, height, MAX_PLACEMENT_ATTEMPTS as nat);
        let (s1, entry) = place_with_retries(
            s,
            placed,
            width,
            height,
            MAX_PLACEMENT_ATTEMPTS as nat,
        );
        if let Some(e) = entry {
            let next = placed.push(e);
            lemma_generate_from_valid(s1, next, width, height, (slots - 1) as nat);
            let out = generate_from(s1, next, width, height, (slots - 1) as nat).1;
            assert(out.subrange(0, placed.len() as int) =~= placed) by {
                assert(out.subrange(0, next.len() as int) == next);
                assert forall|k: int| 0 <= k < placed.len() implies out.subrange(
                    0,
                    placed.len() as int,
                )[k] == placed[k] by {
                    assert(out.subrange(0, next.len() as int)[k] == next[k]);
                }
            }
        } else {
            assert(placed.subrange(0, placed.len() as int) =~= placed);
        }
    } else {
        assert(placed.subrange(0, placed.len() as int) =~= placed);
    }
}

/// What the generator produces, from any seed and for any area, is a valid
/// layout of at most `RECT_COUNT` rectangles: all of the fixed size and in
/// the area, pairwise apart by more than the padding, with distinct labels
/// made of a letter and a digit.
pub proof fn lemma_generated_layout_valid(seed: u64, width: i32, height: i32)
    ensures
        valid_layout(generated_layout(seed, width, height).1, width, height),
        generated_layout(seed, width, height).1.len() <= RECT_COUNT,
{
    let empty = Seq::<Placed>::empty();
    assert(valid_layout(empty, width, height));
    lemma_generate_from_valid(seed, empty, width, height, RECT_COUNT as nat);
}

/// The letters of labels run from `a` to `z` in order.
pub proof fn lemma_label_letters_alphabet()
    ensures
        label_letters().len() == 26,
        forall|k: int| 0 <= k < 26 ==> #[trigger] label_letters()[k] as int == 97 + k,
{
}

/// The digits of labels run from `1` to `9` in order.
pub proof fn lemma_label_digits_order()
    ensures
        label_digits().len() == 9,
        forall|k: int| 0 <= k < 9 ==> #[trigger] label_digits()[k] as int == 49 + k,
{
}

/// A candidate's position comes from its two draws, each reduced modulo the
/// room left on its axis (never less than one), and it has the fixed size.
pub proof fn lemma_candidate_position(x_draw: u64, y_draw: u64, width: i32, height: i32)
    ensures
        candidate_rect(x_draw, y_draw, width, height).left == x_draw as int % (if width
            - RECT_WIDTH > 1 {
            width - RECT_WIDTH
        } else {
            1
        }),
        candidate_rect(x_draw, y_draw, width, height).top == y_draw as int % (if height
            - RECT_HEIGHT > 1 {
            height - RECT_HEIGHT
        } else {
            1
        }),
        candidate_rect(x_draw, y_draw, width, height).right == candidate_rect(
            x_draw,
            y_draw,
            width,
            height,
        ).left + RECT_WIDTH,
        candidate_rect(x_draw, y_draw, width, height).bottom == candidate_rect(
            x_draw,
            y_draw,
            width,
            height,
        ).top + RECT_HEIGHT,
{
}

/// The label drawn from two draws is the letter `a` plus the first draw
/// modulo 26, followed by the digit `1` plus the second draw modulo 9.
pub proof fn lemma_label_from_draws(letter_draw: u64, digit_draw: u64)
    ensures
        label_for(letter_draw, digit_draw).len() == 2,
        label_for(letter_draw, digit_draw)[0] as int == 97 + letter_draw % 26,
        label_for(letter_draw, digit_draw)[1] as int == 49 + digit_draw % 9,
{
    lemma_label_letters_alphabet();
    lemma_label_digits_order();
    assert(label_letters()[(letter_draw % 26) as int] as int == 97 + letter_draw % 26);
    assert(label_digits()[(digit_draw % 9) as int] as int == 49 + digit_draw % 9);
}

/// Every generated rectangle, for any seed and any area, has the fixed size
/// and starts inside the room left on each axis; every label is a letter
/// from `a` to `z` followed by a digit from `1` to `9`.
pub proof fn lemma_generated_in_area(seed: u64, width: i32, height: i32, i: int)
    requires
        0 <= i < generated_layout(seed, width, height).1.len(),
    ensures
        ({
            let (rect, label) = generated_layout(seed, width, height).1[i];
            &&& 0 <= rect.left < (if width - RECT_WIDTH > 1 {
                width - RECT_WIDTH
            } else {
                1
            })
            &&& 0 <= rect.top < (if height - RECT_HEIGHT > 1 {
                height - RECT_HEIGHT
            } else {
                1
            })
            &&& rect.right == rect.left + RECT_WIDTH
            &&& rect.bottom == rect.top + RECT_HEIGHT
            &&& label.len() == 2
            &&& 97 <= label[0] as int <= 122
            &&& 49 <= label[1] as int <= 57
        }),
{
    lemma_generated_layout_valid(seed, width, height);
    lemma_label_letters_alphabet();
    lemma_label_digits_order();
    let out = generated_layout(seed, width, height).1;
    assert(in_area(out[i].0, width, height) && is_label(out[i].1));
    let label = out[i].1;
    let a = choose|k: int| 0 <= k < label_letters().len() && label_letters()[k] == label[0];
    let d = choose|k: int| 0 <= k < label_digits().len() && label_digits()[k] == label[1];
    assert(label_letters()[a] as int == 97 + a);
    assert(label_digits()[d] as int == 49 + d);
}

/// The first rectangle is always placed, at the first attempt: its position
/// comes from the generator's first two steps and its label from the next
/// two, whatever the seed and the area.
pub proof fn lemma_generated_first_rect(seed: u64, width: i32, height: i32)
    ensures
        ({
            let s1 = xorshift_next(seed);
            let s2 = xorshift_next(s1);
            let s3 = xorshift_next(s2);
            let s4 = xorshift_next(s3);
            let out = generated_layout(seed, width, height).1;
            &&& out.len() >= 1
            &&& out[0].0.left == s1 as int % (if width - RECT_WIDTH > 1 {
                width - RECT_WIDTH
            } else {
                1
            })
            &&& out[0].0.top == s2 as int % (if height - RECT_HEIGHT > 1 {
                height - RECT_HEIGHT
            } else {
                1
            })
            &&& out[0].0.right == out[0].0.left + RECT_WIDTH
            &&& out[0].0.bottom == out[0].0.top + RECT_HEIGHT
            &&& out[0].1.len() == 2
            &&& out[0].1[0] as int == 97 + s3 % 26
            &&& out[0].1[1] as int == 49 + s4 % 9
        }),
{
    let empty = Seq::<Placed>::empty();
    let s1 = xorshift_next(seed);
    let s2 = xorshift_next(s1);
    let s3 = xorshift_next(s2);
    let s4 = xorshift_next(s3);
    let first = (candidate_rect(s1, s2, width, height), label_for(s3, s4));
    assert(!overlaps_any(first.0, empty));
    assert(!label_used(first.1, empty));
    assert(try_place(seed, empty, width, height) == (s4, Some(first)));
    assert(place_with_retries(seed, empty, width, height, MAX_PLACEMENT_ATTEMPTS as nat) == (
        s4,
        Some(first),
    ));
    let next = empty.push(first);
    assert(generated_layout(seed, width, height) == generate_from(
        s4,
        next,
        width,
        height,
        (RECT_COUNT - 1) as nat,
    ));
    lemma_generated_layout_valid(seed, width, height);
    assert(valid_layout(next, width, height)) by {
        lemma_try_place_valid(seed, empty, width, height);
    }
    lemma_generate_from_valid(s4, next, width, height, (RECT_COUNT - 1) as nat);
    let out = generated_layout(seed, width, height).1;
    assert(out.subrange(0, 1)[0] == out[0]);
    lemma_candidate_position(s1, s2, width, height);
    lemma_label_from_draws(s3, s4);
}

/// Generation only stops short when a slot failed: if fewer than the
/// number of slots were filled, some generator state gives up on the final
/// layout after a thousand failed attempts.
pub proof fn lemma_generate_from_stops_on_failure(
    s: u64,
    placed: Seq<Placed>,
    width: i32,
    height: i32,
    slots: nat,
)
    ensures
        generate_from(s, placed, width, height, slots).1.len() < placed.len() + slots ==> exists|
            t: u64,
        |
            (#[trigger] place_with_retries(
                t,
                generate_from(s, placed, width, height, slots).1,
                width,
                height,
                1000,
            )).1 is None,
    decreases slots,
{
    if slots > 0 {
        let (s1, entry) = place_with_retries(
            s,
            placed,
            width,
            height,
            MAX_PLACEMENT_ATTEMPTS as nat,
        );
        match entry {
            Some(e) => {
                lemma_generate_from_stops_on_failure(s1, placed.push(e), width, height, (slots
                    - 1) as nat);
            },
            None => {
                assert(place_with_retries(s, placed, width, height, 1000).1 is None);
            },
        }
    }
}

/// A layout holds at most twenty rectangles, and it holds fewer only when
/// a thousand attempts in a row failed to place the next one.
pub proof fn lemma_generated_count(seed: u64, width: i32, height: i32)
    ensures
        generated_layout(seed, width, height).1.len() <= 20,
        generated_layout(seed, width, height).1.len() < 20 ==> exists|t: u64|
            (#[trigger] place_with_retries(
                t,
                generated_layout(seed, width, height).1,
                width,
                height,
                1000,
            )).1 is None,
{
    lemma_generated_layout_valid(seed, width, height);
    lemma_generate_from_stops_on_failure(seed, Seq::empty(), width, height, RECT_COUNT as nat);
}

} // verus!
