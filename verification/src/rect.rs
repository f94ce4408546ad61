use vstd::prelude::*;
use crate::constants::{RECT_COUNT, RECT_HEIGHT, RECT_PADDING, RECT_WIDTH};
use crate::geometry::{fits_i32, rects_overlap, Rect};
use crate::layout::{
    candidate_rect, generate_from, generated_layout, in_area, label_digits, label_for, label_letters,
    label_used, lemma_generated_layout_valid, lemma_place_with_retries_valid, lemma_try_place_valid,
    overlaps_any, place_with_retries, valid_layout, Placed, MAX_PLACEMENT_ATTEMPTS,
    lemma_generated_first_rect, lemma_generated_in_area,
};
use crate::rng::{rand_xo_random, xorshift_next, XorShiftRng};

verus! {

/// The contracts' view of labelled rectangles: each label by its characters.
pub open spec fn placed_view(rects: Seq<(Rect, String)>) -> Seq<Placed> {
    rects.map_values(|e: (Rect, String)| (e.0, e.1@))
}

/// The area sizes for which generation stays within `i32`: the distance
/// from each side to the rectangle size fits, and a placed rectangle's far
/// edge (at most one short of the side) plus the padding fits.
pub open spec fn area_supported(width: i32, height: i32) -> bool {
    &&& i32::MIN + RECT_WIDTH <= width <= i32::MAX - RECT_PADDING + 1
    &&& i32::MIN + RECT_HEIGHT <= height <= i32::MAX - RECT_PADDING + 1
}

/// Calls std's `format!` with `"{}{}"` on `letter` and `digit`; as std
/// documents for characters, the string holds exactly those two characters.
#[verifier::external_body]
fn label_string(letter: char, digit: char) -> (label: String)
    ensures
        label@ == seq![letter, digit],
{
    format!("{}{}", letter, digit)
}

/// Whether `rect` comes within the padding of some rectangle of `rects`.
fn overlaps_any_placed(rects: &Vec<(Rect, String)>, rect: &Rect, width: i32, height: i32) -> (found: bool)
    requires
        area_supported(width, height),
        in_area(*rect, width, height),
        forall|i: int| 0 <= i < rects@.len() ==> in_area(#[trigger] rects@[i].0, width, height),
    ensures
        found == overlaps_any(*rect, placed_view(rects@)),
{
    let mut i: usize = 0;
    while i < rects.len()
        invariant
            i <= rects@.len(),
            area_supported(width, height),
            in_area(*rect, width, height),
            forall|k: int| 0 <= k < rects@.len() ==> in_area(#[trigger] rects@[k].0, width, height),
            forall|k: int| 0 <= k < i ==> !rect.overlaps_padded(#[trigger] placed_view(rects@)[k].0, RECT_PADDING as int),
        decreases rects@.len() - i,
    {
        let other = &rects[i].0;
        assert(placed_view(rects@)[i as int].0 == *other);
        if rects_overlap(rect, other, RECT_PADDING) {
            return true;
        }
        i = i + 1;
    }
    false
}

/// Whether some rectangle of `rects` already carries `label`.
fn label_taken(rects: &Vec<(Rect, String)>, label: &String) -> (found: bool)
    ensures
        found == label_used(label@, placed_view(rects@)),
{
    let mut i: usize = 0;
    while i < rects.len()
        invariant
            i <= rects@.len(),
            forall|k: int| 0 <= k < i ==> #[trigger] placed_view(rects@)[k].1 != label@,
        decreases rects@.len() - i,
    {
        assert(placed_view(rects@)[i as int].1 == rects@[i as int].1@);
        if rects[i].1 == *label {
            return true;
        }
        i = i + 1;
    }
    false
}

/// Scatters up to `RECT_COUNT` labelled rectangles of fixed size over an
/// area of `width` by `height`, drawing positions and labels from `rng`.
/// A candidate is dropped when it comes within the padding of a placed
/// rectangle or when its label is taken; after `MAX_PLACEMENT_ATTEMPTS`
/// failed candidates in a row the generator stops early.
pub fn generate_random_rects(rng: &mut XorShiftRng, width: i32, height: i32) -> (rects: Vec<(Rect, String)>)
    requires
        area_supported(width, height),
    ensures
        (final(rng)@, placed_view(rects@)) == generated_layout(old(rng)@, width, height),
        valid_layout(placed_view(rects@), width, height),
        1 <= rects@.len() <= RECT_COUNT,
        forall|i: int|
            0 <= i < rects@.len() ==> 0 <= (#[trigger] rects@[i]).0.left < (if width - RECT_WIDTH
                > 1 {
                width - RECT_WIDTH
            } else {
                1
            }) && 0 <= rects@[i].0.top < (if height - RECT_HEIGHT > 1 {
                height - RECT_HEIGHT
            } else {
                1
            }) && rects@[i].0.right == rects@[i].0.left + RECT_WIDTH && rects@[i].0.bottom
                == rects@[i].0.top + RECT_HEIGHT,
        rects@[0].0.left == xorshift_next(old(rng)@) as int % (if width - RECT_WIDTH > 1 {
            width - RECT_WIDTH
        } else {
            1
        }),
        rects@[0].0.top == xorshift_next(xorshift_next(old(rng)@)) as int % (if height
            - RECT_HEIGHT > 1 {
            height - RECT_HEIGHT
        } else {
            1
        }),
{
    let letters: [char; 26] = [
        'a', 'b', 'c', 'd', 'e', 'f', 'g', 'h', 'i', 'j', 'k', 'l', 'm', 'n', 'o', 'p', 'q',
        'r', 's', 't', 'u', 'v', 'w', 'x', 'y', 'z',
    ];
    let numbers: [char; 9] = ['1', '2', '3', '4', '5', '6', '7', '8', '9'];
    assert(letters@ =~= label_letters());
    assert(numbers@ =~= label_digits());
    let ghost seed = rng@;
    let ghost target = generated_layout(seed, width, height);
    proof {
        lemma_generated_layout_valid(seed, width, height);
    }
    let mut rects: Vec<(Rect, String)> = Vec::new();
    let mut done = false;
    assert(placed_view(rects@) =~= Seq::<Placed>::empty());
    while rects.len() < RECT_COUNT && !done
        invariant
            area_supported(width, height),
            letters@ == label_letters(),
            numbers@ == label_digits(),
            rects@.len() <= RECT_COUNT,
            valid_layout(placed_view(rects@), width, height),
            !done ==> generate_from(
                rng@,
                placed_view(rects@),
                width,
                height,
                (RECT_COUNT - rects@.len()) as nat,
            ) == target,
            done ==> (rng@, placed_view(rects@)) == target,
            target == generated_layout(seed, width, height),
        decreases RECT_COUNT - rects@.len() + (if done { 0int } else { 1int }),
    {
        let ghost s0 = rng@;
        let ghost v0 = placed_view(rects@);
        let ghost len0 = rects@.len();
        let mut attempts: u32 = 0;
        let mut placed = false;
        while attempts < MAX_PLACEMENT_ATTEMPTS && !placed
            invariant
                area_supported(width, height),
                letters@ == label_letters(),
                numbers@ == label_digits(),
                attempts <= MAX_PLACEMENT_ATTEMPTS,
                valid_layout(v0, width, height),
                len0 == v0.len(),
                len0 < RECT_COUNT,
                !placed ==> placed_view(rects@) == v0,
                !placed ==> place_with_retries(
                    rng@,
                    v0,
                    width,
                    height,
                    (MAX_PLACEMENT_ATTEMPTS - attempts) as nat,
                ) == place_with_retries(s0, v0, width, height, MAX_PLACEMENT_ATTEMPTS as nat),
                placed ==> rects@.len() == len0 + 1 && placed_view(rects@) == v0.push(
                    placed_view(rects@)[len0 as int],
                ) && place_with_retries(s0, v0, width, height, MAX_PLACEMENT_ATTEMPTS as nat)
                    == (rng@, Some(placed_view(rects@)[len0 as int])),
            decreases MAX_PLACEMENT_ATTEMPTS - attempts + (if placed { 0int } else { 1int }),
        {
            let ghost sa = rng@;
            let max_x = if width - RECT_WIDTH > 1 { width - RECT_WIDTH } else { 1 };
            let max_y = if height - RECT_HEIGHT > 1 { height - RECT_HEIGHT } else { 1 };
            let x_draw = rand_xo_random(rng);
            let x = (x_draw % (max_x as u64)) as i32;
            let y_draw = rand_xo_random(rng);
            let y = (y_draw % (max_y as u64)) as i32;
            let new_rect = Rect { left: x, top: y, right: x + RECT_WIDTH, bottom: y + RECT_HEIGHT };
            assert(new_rect == candidate_rect(x_draw, y_draw, width, height));
            proof {
                lemma_try_place_valid(sa, v0, width, height);
                assert forall|i: int| 0 <= i < rects@.len() implies in_area(
                    #[trigger] rects@[i].0,
                    width,
                    height,
                ) by {
                    assert(placed_view(rects@)[i].0 == rects@[i].0);
                }
            }
            let overlaps = overlaps_any_placed(&rects, &new_rect, width, height);
            if !overlaps {
                let l_draw = rand_xo_random(rng);
                let letter = letters[(l_draw % 26) as usize];
                let d_draw = rand_xo_random(rng);
                let num = numbers[(d_draw % 9) as usize];
                let label = label_string(letter, num);
                assert(label@ == label_for(l_draw, d_draw));
                if !label_taken(&rects, &label) {
                    rects.push((new_rect, label));
                    placed = true;
                    assert(placed_view(rects@) =~= v0.push((new_rect, label_for(l_draw, d_draw))));
                }
            }
            attempts = attempts + 1;
        }
        if !placed {
            done = true;
        } else {
            proof {
                lemma_place_with_retries_valid(s0, v0, width, height, MAX_PLACEMENT_ATTEMPTS as nat);
            }
        }
    }
    proof {
        lemma_generated_first_rect(seed, width, height);
        assert(placed_view(rects@)[0].0 == rects@[0].0);
        assert forall|i: int| 0 <= i < rects@.len() implies 0 <= (#[trigger] rects@[i]).0.left < (
        if width - RECT_WIDTH > 1 {
            width - RECT_WIDTH
        } else {
            1
        }) && 0 <= rects@[i].0.top < (if height - RECT_HEIGHT > 1 {
            height - RECT_HEIGHT
        } else {
            1
        }) && rects@[i].0.right == rects@[i].0.left + RECT_WIDTH && rects@[i].0.bottom
            == rects@[i].0.top + RECT_HEIGHT by {
            lemma_generated_in_area(seed, width, height, i);
            assert(placed_view(rects@)[i].0 == rects@[i].0);
        }
    }
    rects
}

/// The cache of generated rectangles: empty until the first request, then
/// fixed for the rest of the program.
pub struct RectCache {
    rects: Option<Vec<(Rect, String)>>,
}

impl View for RectCache {
    type V = Option<Seq<Placed>>;

    closed spec fn view(&self) -> Option<Seq<Placed>> {
        match self.rects {
            Some(v) => Some(placed_view(v@)),
            None => None,
        }
    }
}

impl RectCache {
    /// An empty cache.
    pub fn new() -> (cache: Self)
        ensures
            cache@ is None,
    {
        RectCache { rects: None }
    }
}

/// The cache and the generator state after a request for the rectangles of
/// an area of `width` by `height`: an empty cache is filled from the
/// generator; a filled cache stays as it is and leaves the generator alone.
pub open spec fn cache_step(cache: Option<Seq<Placed>>, s: u64, width: i32, height: i32) -> (Option<Seq<Placed>>, u64) {
    match cache {
        Some(v) => (Some(v), s),
        None => {
            let (s1, v) = generated_layout(s, width, height);
            (Some(v), s1)
        },
    }
}

/// A copy of `rects`.
fn copy_rects(rects: &Vec<(Rect, String)>) -> (copy: Vec<(Rect, String)>)
    ensures
        placed_view(copy@) == placed_view(rects@),
{
    let mut copy: Vec<(Rect, String)> = Vec::new();
    let mut i: usize = 0;
    while i < rects.len()
        invariant
            i <= rects@.len(),
            copy@.len() == i,
            forall|k: int| 0 <= k < i ==> #[trigger] placed_view(copy@)[k] == placed_view(rects@)[k],
        decreases rects@.len() - i,
    {
        let ghost before = copy@;
        let label = rects[i].1.clone();
        copy.push((rects[i].0, label));
        assert forall|k: int| 0 <= k <= i implies #[trigger] placed_view(copy@)[k] == placed_view(
            rects@,
        )[k] by {
            if k < i {
                assert(copy@[k] == before[k]);
                assert(placed_view(before)[k] == placed_view(rects@)[k]);
            }
        }
        i = i + 1;
    }
    assert(placed_view(copy@) =~= placed_view(rects@));
    copy
}

/// The rectangles of the overlay: generated on the first request, for an
/// area of `width` by `height`, and returned unchanged on every later one.
pub fn get_cached_rects(cache: &mut RectCache, rng: &mut XorShiftRng, width: i32, height: i32) -> (rects: Vec<(Rect, String)>)
    requires
        old(cache)@ is None ==> area_supported(width, height),
    ensures
        (final(cache)@, final(rng)@) == cache_step(old(cache)@, old(rng)@, width, height),
        final(cache)@ == Some(placed_view(rects@)),
        old(cache)@ is None ==> (final(rng)@, placed_view(rects@)) == generated_layout(
            old(rng)@,
            width,
            height,
        ),
        old(cache)@ is None ==> forall|i: int|
            0 <= i < rects@.len() ==> 0 <= (#[trigger] rects@[i]).0.left < (if width
                - RECT_WIDTH > 1 {
                width - RECT_WIDTH
            } else {
                1
            }) && 0 <= rects@[i].0.top < (if height - RECT_HEIGHT > 1 {
                height - RECT_HEIGHT
            } else {
                1
            }),
        old(cache)@ matches Some(v) ==> placed_view(rects@) == v && final(rng)@ == old(rng)@,
{
    if cache.rects.is_none() {
        let fresh = generate_random_rects(rng, width, height);
        cache.rects = Some(fresh);
    }
    let out = match &cache.rects {
        Some(v) => copy_rects(v),
        None => Vec::new(),
    };
    proof {
        if old(cache)@ is None {
            assert forall|i: int| 0 <= i < out@.len() implies 0 <= (#[trigger] out@[i]).0.left < (
            if width - RECT_WIDTH > 1 {
                width - RECT_WIDTH
            } else {
                1
            }) && 0 <= out@[i].0.top < (if height - RECT_HEIGHT > 1 {
                height - RECT_HEIGHT
            } else {
                1
            }) by {
                assert(placed_view(out@)[i].0 == out@[i].0);
                lemma_generated_in_area(old(rng)@, width, height, i);
            }
        }
    }
    out
}

/// `i` is the first index of `placed` whose rectangle contains `(x, y)`.
pub open spec fn is_first_hit(placed: Seq<Placed>, i: int, x: int, y: int) -> bool {
    &&& 0 <= i < placed.len()
    &&& placed[i].0.contains(x, y)
    &&& forall|j: int| 0 <= j < i ==> !(#[trigger] placed[j].0).contains(x, y)
}

/// Some rectangle of `placed` contains `(x, y)`.
pub open spec fn any_hit(placed: Seq<Placed>, x: int, y: int) -> bool {
    exists|i: int| 0 <= i < placed.len() && (#[trigger] placed[i].0).contains(x, y)
}

/// The first cached rectangle, with its label, that contains the point
/// `(x, y)`; none when the cache is empty or no rectangle contains it.
pub fn get_rect_at_point(cache: &RectCache, x: i32, y: i32) -> (hit: Option<(Rect, String)>)
    ensures
        hit is None <==> match cache@ {
            Some(v) => !any_hit(v, x as int, y as int),
            None => true,
        },
        hit matches Some(e) ==> cache@ matches Some(v) && exists|i: int|
            is_first_hit(v, i, x as int, y as int) && #[trigger] v[i] == (e.0, e.1@),
        hit is None <==> match cache@ {
            Some(v) => forall|i: int|
                0 <= i < v.len() ==> !((#[trigger] v[i]).0.left <= x <= v[i].0.right && v[i].0.top
                    <= y <= v[i].0.bottom),
            None => true,
        },
        hit matches Some(e) ==> e.0.left <= x <= e.0.right && e.0.top <= y <= e.0.bottom,
        hit matches Some(e) ==> cache@ matches Some(v) && exists|i: int|
            0 <= i < v.len() && #[trigger] v[i] == (e.0, e.1@) && forall|j: int|
                0 <= j < i ==> !((#[trigger] v[j]).0.left <= x <= v[j].0.right && v[j].0.top <= y
                    <= v[j].0.bottom),
{
    match &cache.rects {
        None => None,
        Some(rects) => {
            let ghost v = placed_view(rects@);
            let mut i: usize = 0;
            while i < rects.len()
                invariant
                    i <= rects@.len(),
                    v == placed_view(rects@),
                    cache.rects == Some(*rects),
                    forall|j: int| 0 <= j < i ==> !(#[trigger] v[j].0).contains(x as int, y as int),
                decreases rects@.len() - i,
            {
                assert(v[i as int] == (rects@[i as int].0, rects@[i as int].1@));
                if crate::geometry::point_in_rect(x, y, &rects[i].0) {
                    let label = rects[i].1.clone();
                    let hit = (rects[i].0, label);
                    assert(is_first_hit(v, i as int, x as int, y as int));
                    assert(v[i as int] == (hit.0, hit.1@));
                    assert(any_hit(v, x as int, y as int));
                    assert(cache.rects == Some(*rects));
                    assert(cache@ == Some(v));
                    return Some(hit);
                }
                i = i + 1;
            }
            None
        },
    }
}

/// The first request fills the cache with the layout generated for the area
/// asked for, from the generator's current state, and leaves the generator
/// where that generation leaves it.
pub proof fn lemma_cache_fills_requested_area(s: u64, width: i32, height: i32)
    ensures
        cache_step(None, s, width, height) == (
            Some(generated_layout(s, width, height).1),
            generated_layout(s, width, height).0,
        ),
        forall|i: int|
            0 <= i < generated_layout(s, width, height).1.len() ==> 0 <= (
            #[trigger] generated_layout(s, width, height).1[i]).0.left < (if width - RECT_WIDTH
                > 1 {
                width - RECT_WIDTH
            } else {
                1
            }) && 0 <= generated_layout(s, width, height).1[i].0.top < (if height
                - RECT_HEIGHT > 1 {
                height - RECT_HEIGHT
            } else {
                1
            }),
{
    assert forall|i: int| 0 <= i < generated_layout(s, width, height).1.len() implies 0 <= (
    #[trigger] generated_layout(s, width, height).1[i]).0.left < (if width - RECT_WIDTH > 1 {
        width - RECT_WIDTH
    } else {
        1
    }) && 0 <= generated_layout(s, width, height).1[i].0.top < (if height - RECT_HEIGHT > 1 {
        height - RECT_HEIGHT
    } else {
        1
    }) by {
        lemma_generated_in_area(s, width, height, i);
    }
}

/// Once filled, the cache answers every later request with the same
/// rectangles, whatever area is asked for, and draws nothing more from the
/// generator.
pub proof fn lemma_cache_stable(
    cache: Option<Seq<Placed>>,
    s: u64,
    width: i32,
    height: i32,
    s_later: u64,
    width_later: i32,
    height_later: i32,
)
    ensures
        cache_step(cache_step(cache, s, width, height).0, s_later, width_later, height_later)
            == (cache_step(cache, s, width, height).0, s_later),
{
}

/// In a valid layout at most one rectangle contains any given point, so the
/// first hit is the only hit.
pub proof fn lemma_hit_unique(placed: Seq<Placed>, width: i32, height: i32, i: int, j: int, x: int, y: int)
    requires
        valid_layout(placed, width, height),
        0 <= i < placed.len(),
        0 <= j < placed.len(),
        placed[i].0.contains(x, y),
        placed[j].0.contains(x, y),
    ensures
        i == j,
{
    if i != j {
        assert(!placed[i].0.overlaps_padded(placed[j].0, RECT_PADDING as int));
    }
}

/// A click inside a rectangle of a valid layout picks that very rectangle:
/// it is the first, and only, rectangle that contains the click.
pub proof fn lemma_click_picks_drawn_rect(placed: Seq<Placed>, width: i32, height: i32, i: int, x: int, y: int)
    requires
        valid_layout(placed, width, height),
        0 <= i < placed.len(),
        placed[i].0.contains(x, y),
    ensures
        is_first_hit(placed, i, x, y),
{
    assert forall|j: int| 0 <= j < i implies !(#[trigger] placed[j].0).contains(x, y) by {
        if placed[j].0.contains(x, y) {
            lemma_hit_unique(placed, width, height, i, j, x, y);
        }
    }
}

} // verus!
