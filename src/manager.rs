use vstd::prelude::*;

use spacetimedb::rand::rngs::StdRng;

use crate::error::GenerationError;
use crate::parser::{
    chars_of, glyphs_valid, is_glyph, parse_outcome, parse_template, pattern_rows, rows_ragged,
    ParsedRoom, TemplateError,
};
use crate::rng::draw_below;
use crate::room::{place_parsed, placed_from, Room};
use crate::template::{
    dungeon_catalog, dungeon_templates, town_catalog, town_templates, RoomTemplate, RoomType,
};

verus! {

/// Most entries a weight table or a catalog may hold, so that a sum of `u32`
/// weights fits in 64 bits.
pub const MAX_ENTRIES: usize = 4_294_967_295;

/// Sum of a list of weights.
pub open spec fn weight_sum(ws: Seq<u32>) -> int
    decreases ws.len(),
{
    if ws.len() == 0 {
        0
    } else {
        weight_sum(ws.drop_last()) + ws.last()
    }
}

/// The band that `draw` falls into when the weights are laid end to end.
pub open spec fn pick_index(ws: Seq<u32>, draw: int) -> int
    decreases ws.len(),
{
    if ws.len() == 0 {
        0
    } else if draw < ws[0] {
        0
    } else {
        1 + pick_index(ws.drop_first(), draw - ws[0])
    }
}

proof fn lemma_weight_sum_bound(ws: Seq<u32>)
    ensures
        0 <= weight_sum(ws) <= ws.len() * (u32::MAX as int),
    decreases ws.len(),
{
    if ws.len() > 0 {
        lemma_weight_sum_bound(ws.drop_last());
    }
}

proof fn lemma_weight_sum_first(ws: Seq<u32>)
    requires
        ws.len() > 0,
    ensures
        weight_sum(ws) == ws[0] + weight_sum(ws.drop_first()),
    decreases ws.len(),
{
    if ws.len() > 1 {
        lemma_weight_sum_first(ws.drop_last());
        assert(ws.drop_last().drop_first() =~= ws.drop_first().drop_last());
        assert(ws.drop_first().last() == ws.last());
        assert(weight_sum(ws.drop_first()) == weight_sum(ws.drop_first().drop_last())
            + ws.drop_first().last());
    } else {
        assert(ws.drop_first().len() == 0);
        assert(ws.drop_last().len() == 0);
        assert(weight_sum(ws.drop_first()) == 0);
        assert(weight_sum(ws) == weight_sum(ws.drop_last()) + ws.last());
    }
}

proof fn lemma_pick_in_band(ws: Seq<u32>, draw: int)
    requires
        0 <= draw < weight_sum(ws),
    ensures
        0 <= pick_index(ws, draw) < ws.len(),
        ws[pick_index(ws, draw)] > 0,
    decreases ws.len(),
{
    if ws.len() == 0 {
    } else {
        lemma_weight_sum_first(ws);
        if draw >= ws[0] {
            lemma_pick_in_band(ws.drop_first(), draw - ws[0]);
        }
    }
}

/// Index of the weight band that `draw` falls into.
pub fn pick_weighted(weights: &Vec<u32>, draw: u64) -> (r: usize)
    requires
        draw < weight_sum(weights@),
    ensures
        r as int == pick_index(weights@, draw as int),
        r < weights@.len(),
        weights@[r as int] > 0,
{
    proof {
        lemma_pick_in_band(weights@, draw as int);
    }
    assert(weights@.skip(0) =~= weights@);
    let mut i: usize = 0;
    let mut target: u64 = draw;
    while i < weights.len()
        invariant
            i <= weights@.len(),
            target <= draw,
            pick_index(weights@, draw as int) == i + pick_index(weights@.skip(i as int), target as int),
            target < weight_sum(weights@.skip(i as int)),
        decreases weights@.len() - i,
    {
        let w = weights[i];
        proof {
            lemma_weight_sum_first(weights@.skip(i as int));
            assert(weights@.skip(i as int).drop_first() =~= weights@.skip(i + 1));
        }
        if target < w as u64 {
            return i;
        }
        target = target - w as u64;
        i += 1;
    }
    proof {
        assert(weights@.skip(i as int).len() == 0);
    }
    0
}

fn sum_weights(weights: &Vec<u32>) -> (r: u64)
    requires
        weights@.len() <= MAX_ENTRIES,
    ensures
        r == weight_sum(weights@),
{
    let mut total: u64 = 0;
    let mut i: usize = 0;
    while i < weights.len()
        invariant
            i <= weights@.len(),
            weights@.len() <= MAX_ENTRIES,
            total == weight_sum(weights@.take(i as int)),
        decreases weights@.len() - i,
    {
        proof {
            assert(weights@.take(i + 1).drop_last() =~= weights@.take(i as int));
            lemma_weight_sum_bound(weights@.take(i + 1));
            assert((i + 1) * (u32::MAX as int) <= MAX_ENTRIES * (u32::MAX as int)) by (nonlinear_arith)
                requires
                    i + 1 <= MAX_ENTRIES,
            ;
        }
        total = total + weights[i] as u64;
        i += 1;
    }
    proof {
        assert(weights@.take(i as int) =~= weights@);
    }
    total
}

/// Entries among the first `n` of a weight table whose type is not central, in order.
pub open spec fn non_central(ws: Seq<(RoomType, u32)>, n: int) -> Seq<(RoomType, u32)>
    decreases n,
{
    if n <= 0 {
        Seq::empty()
    } else if ws[n - 1].0 == RoomType::Central {
        non_central(ws, n - 1)
    } else {
        non_central(ws, n - 1).push(ws[n - 1])
    }
}

proof fn lemma_non_central_members(ws: Seq<(RoomType, u32)>, n: int)
    requires
        0 <= n <= ws.len(),
    ensures
        non_central(ws, n).len() <= n,
        forall|i: int|
            0 <= i < non_central(ws, n).len() ==> (#[trigger] non_central(ws, n)[i]).0
                != RoomType::Central && ws.contains(non_central(ws, n)[i]),
    decreases n,
{
    if n > 0 {
        lemma_non_central_members(ws, n - 1);
        assert forall|i: int| 0 <= i < non_central(ws, n).len() implies ws.contains(
            #[trigger] non_central(ws, n)[i],
        ) by {
            if i < non_central(ws, n - 1).len() {
                assert(non_central(ws, n)[i] == non_central(ws, n - 1)[i]);
            } else {
                assert(ws[n - 1] == non_central(ws, n)[i]);
            }
        }
    }
}

/// Indices among the first `n` templates whose category is `t`, in order.
pub open spec fn type_candidates(ts: Seq<RoomTemplate>, t: RoomType, n: int) -> Seq<int>
    decreases n,
{
    if n <= 0 {
        Seq::empty()
    } else if ts[n - 1].room_type == t {
        type_candidates(ts, t, n - 1).push(n - 1)
    } else {
        type_candidates(ts, t, n - 1)
    }
}

proof fn lemma_type_candidates(ts: Seq<RoomTemplate>, t: RoomType, n: int)
    requires
        0 <= n <= ts.len(),
    ensures
        type_candidates(ts, t, n).len() <= n,
        forall|i: int|
            0 <= i < type_candidates(ts, t, n).len() ==> 0 <= #[trigger] type_candidates(ts, t, n)[i]
                < n && ts[type_candidates(ts, t, n)[i]].room_type == t,
        type_candidates(ts, t, n).len() == 0 ==> forall|k: int|
            0 <= k < n ==> (#[trigger] ts[k]).room_type != t,
    decreases n,
{
    if n > 0 {
        lemma_type_candidates(ts, t, n - 1);
    }
}

/// The weights of the templates that `type_candidates` lists.
pub open spec fn candidate_weights(ts: Seq<RoomTemplate>, cands: Seq<int>) -> Seq<u32> {
    cands.map_values(|k: int| ts[k].weight)
}

/// A draw that the generator can make for category `t`: below the total weight
/// of its templates, or zero when they all weigh zero (nothing is drawn then).
pub open spec fn drawn_within(ts: Seq<RoomTemplate>, t: RoomType, d: int) -> bool {
    let total = weight_sum(candidate_weights(ts, type_candidates(ts, t, ts.len() as int)));
    if total == 0 {
        d == 0
    } else {
        0 <= d < total
    }
}

/// The template index that a draw selects among the templates of category `t`:
/// none when there is no such template, the first when all weigh zero, else the
/// one whose weight band holds the draw.
pub open spec fn template_for_draw(ts: Seq<RoomTemplate>, t: RoomType, draw: int) -> Option<int> {
    let cands = type_candidates(ts, t, ts.len() as int);
    let ws = candidate_weights(ts, cands);
    if cands.len() == 0 {
        None
    } else if weight_sum(ws) == 0 {
        Some(cands[0])
    } else {
        Some(cands[pick_index(ws, draw)])
    }
}

/// No category appears twice in a weight table.
pub open spec fn keys_unique(ws: Seq<(RoomType, u32)>) -> bool {
    forall|i: int, j: int| 0 <= i < ws.len() && 0 <= j < ws.len() && i != j ==> (#[trigger] ws[i]).0
        != (#[trigger] ws[j]).0
}

/// Weights by which a room category is drawn.
#[derive(Debug, Clone)]
pub struct RoomTypeWeights {
    pub weights: Vec<(RoomType, u32)>,
}

impl RoomTypeWeights {
    pub open spec fn wf(&self) -> bool {
        &&& self.weights@.len() <= MAX_ENTRIES
        &&& keys_unique(self.weights@)
    }

    /// Town weights: the town category alone, at its dungeon weight.
    pub fn default_town() -> (r: Self)
        ensures
            r.wf(),
            r.weights@ == seq![(RoomType::Town, RoomType::Town.spec_dungeon_weight())],
    {
        let mut weights: Vec<(RoomType, u32)> = Vec::new();
        let t = RoomType::Town;
        weights.push((t, t.default_dungeon_weight()));
        assert(weights@ =~= seq![(RoomType::Town, RoomType::Town.spec_dungeon_weight())]);
        RoomTypeWeights { weights }
    }

    /// Dungeon weights: each dungeon category at its dungeon weight.
    pub fn default_dungeon() -> (r: Self)
        ensures
            r.wf(),
            r.weights@ == seq![
                (RoomType::Combat, 40u32),
                (RoomType::Treasure, 15u32),
                (RoomType::Central, 0u32),
                (RoomType::Rest, 12u32),
                (RoomType::Spawn, 10u32),
            ],
    {
        let kinds = [
            RoomType::Combat,
            RoomType::Treasure,
            RoomType::Central,
            RoomType::Rest,
            RoomType::Spawn,
        ];
        let mut weights: Vec<(RoomType, u32)> = Vec::new();
        let mut i: usize = 0;
        while i < 5
            invariant
                0 <= i <= 5,
                kinds@ == seq![
                    RoomType::Combat,
                    RoomType::Treasure,
                    RoomType::Central,
                    RoomType::Rest,
                    RoomType::Spawn,
                ],
                weights@.len() == i,
                forall|k: int|
                    0 <= k < i ==> #[trigger] weights@[k] == (
                        kinds@[k],
                        kinds@[k].spec_dungeon_weight(),
                    ),
            decreases 5 - i,
        {
            let t = kinds[i];
            weights.push((t, t.default_dungeon_weight()));
            i += 1;
        }
        assert(weights@ =~= seq![
            (RoomType::Combat, 40u32),
            (RoomType::Treasure, 15u32),
            (RoomType::Central, 0u32),
            (RoomType::Rest, 12u32),
            (RoomType::Spawn, 10u32),
        ]);
        RoomTypeWeights { weights }
    }

    /// A table given by the caller, kept in its order; each category at most once.
    pub fn custom(weights: Vec<(RoomType, u32)>) -> (r: Self)
        requires
            weights@.len() <= MAX_ENTRIES,
            keys_unique(weights@),
        ensures
            r.wf(),
            r.weights@ == weights@,
    {
        RoomTypeWeights { weights }
    }

    pub open spec fn spec_is_dungeon_weights(&self) -> bool {
        exists|i: int|
            0 <= i < self.weights@.len() && is_dungeon_category((#[trigger] self.weights@[i]).0)
    }

    /// Whether the table names a dungeon-only category (combat, treasure, rest or spawn).
    pub fn is_dungeon_weights(&self) -> (r: bool)
        ensures
            r == self.spec_is_dungeon_weights(),
    {
        let mut i: usize = 0;
        while i < self.weights.len()
            invariant
                i <= self.weights@.len(),
                forall|k: int| 0 <= k < i ==> !is_dungeon_category((#[trigger] self.weights@[k]).0),
            decreases self.weights@.len() - i,
        {
            let t = self.weights[i].0;
            if is_dungeon_kind(t) {
                return true;
            }
            i += 1;
        }
        false
    }
}

pub open spec fn is_dungeon_category(t: RoomType) -> bool {
    t == RoomType::Combat || t == RoomType::Treasure || t == RoomType::Rest || t == RoomType::Spawn
}

fn is_dungeon_kind(t: RoomType) -> (r: bool)
    ensures
        r == is_dungeon_category(t),
{
    match t {
        RoomType::Combat | RoomType::Treasure | RoomType::Rest | RoomType::Spawn => true,
        _ => false,
    }
}

/// Whether two strings hold the same characters.
pub fn same_text(a: &str, b: &str) -> (r: bool)
    ensures
        r == (a@ == b@),
{
    let ca = chars_of(a);
    let cb = chars_of(b);
    if ca.len() != cb.len() {
        assert(ca@.len() != cb@.len());
        return false;
    }
    let mut i: usize = 0;
    while i < ca.len()
        invariant
            i <= ca@.len(),
            ca@ == a@,
            cb@ == b@,
            ca@.len() == cb@.len(),
            forall|k: int| 0 <= k < i ==> ca@[k] == cb@[k],
        decreases ca@.len() - i,
    {
        if ca[i] != cb[i] {
            assert(ca@[i as int] != cb@[i as int]);
            return false;
        }
        i += 1;
    }
    assert(ca@ =~= cb@);
    true
}

/// The room catalog, the weights by category, and an optional pinned central template.
pub struct RoomManager {
    pub templates: Vec<RoomTemplate>,
    /// Index of the central template chosen by the caller, if any.
    pub central_room: Option<usize>,
    pub room_type_weights: RoomTypeWeights,
}

impl RoomManager {
    pub open spec fn wf(&self) -> bool {
        &&& self.templates@.len() <= MAX_ENTRIES
        &&& self.room_type_weights.wf()
        &&& match self.central_room {
            Some(i) => i < self.templates@.len() && self.templates@[i as int].is_central,
            None => true,
        }
    }

    /// A manager over the dungeon catalog.
    pub fn new() -> (r: Self)
        ensures
            r.wf(),
            r.templates@ == dungeon_catalog(),
            r.central_room is None,
            r.room_type_weights.weights@ == seq![
                (RoomType::Combat, 40u32),
                (RoomType::Treasure, 15u32),
                (RoomType::Central, 0u32),
                (RoomType::Rest, 12u32),
                (RoomType::Spawn, 10u32),
            ],
    {
        RoomManager::for_dungeons()
    }

    /// A manager whose catalog follows the weights: the dungeon catalog when they
    /// name a dungeon-only category, else the town catalog.
    pub fn with_weights(weights: RoomTypeWeights) -> (r: Self)
        requires
            weights.wf(),
        ensures
            r.wf(),
            r.templates@ == (if weights.spec_is_dungeon_weights() {
                dungeon_catalog()
            } else {
                town_catalog()
            }),
            r.central_room is None,
            r.room_type_weights.weights@ == weights.weights@,
    {
        let templates = if weights.is_dungeon_weights() {
            dungeon_templates()
        } else {
            town_templates()
        };
        RoomManager { templates, central_room: None, room_type_weights: weights }
    }

    /// A manager over the dungeon catalog with the default dungeon weights.
    pub fn for_dungeons() -> (r: Self)
        ensures
            r.wf(),
            r.templates@ == dungeon_catalog(),
            r.central_room is None,
            r.room_type_weights.weights@ == seq![
                (RoomType::Combat, 40u32),
                (RoomType::Treasure, 15u32),
                (RoomType::Central, 0u32),
                (RoomType::Rest, 12u32),
                (RoomType::Spawn, 10u32),
            ],
    {
        RoomManager {
            templates: dungeon_templates(),
            central_room: None,
            room_type_weights: RoomTypeWeights::default_dungeon(),
        }
    }

    /// A manager over the town catalog with the default town weights.
    pub fn for_towns() -> (r: Self)
        ensures
            r.wf(),
            r.templates@ == town_catalog(),
            r.central_room is None,
            r.room_type_weights.weights@ == seq![(RoomType::Town, 0u32)],
    {
        RoomManager {
            templates: town_templates(),
            central_room: None,
            room_type_weights: RoomTypeWeights::default_town(),
        }
    }

    /// Reads a template's pattern into a room shape.
    pub fn parse_room_template(template: &RoomTemplate) -> (r: Result<ParsedRoom, TemplateError>)
        ensures
            parse_outcome(*template, r),
            r is Ok ==> r->Ok_0.wf(),
    {
        parse_template(template)
    }

    /// The first template called `name`.
    pub fn get_template_by_name(&self, name: &str) -> (r: Option<&RoomTemplate>)
        ensures
            r is None <==> forall|i: int|
                0 <= i < self.templates@.len() ==> (#[trigger] self.templates@[i]).name@ != name@,
            r is Some ==> exists|i: int|
                0 <= i < self.templates@.len() && self.templates@[i] == *r->Some_0 && (
                *r->Some_0).name@ == name@ && forall|k: int|
                    0 <= k < i ==> (#[trigger] self.templates@[k]).name@ != name@,
    {
        let mut i: usize = 0;
        while i < self.templates.len()
            invariant
                i <= self.templates@.len(),
                forall|k: int| 0 <= k < i ==> (#[trigger] self.templates@[k]).name@ != name@,
            decreases self.templates@.len() - i,
        {
            if same_text(self.templates[i].name, name) {
                return Some(&self.templates[i]);
            }
            i += 1;
        }
        None
    }

    /// The whole catalog.
    pub fn get_all_templates(&self) -> (r: &[RoomTemplate])
        ensures
            r@ == self.templates@,
    {
        self.templates.as_slice()
    }

    /// Pins the central template to the first central template called `template_name`.
    pub fn set_central_room(&mut self, template_name: &str) -> (r: Result<(), GenerationError>)
        requires
            old(self).wf(),
        ensures
            final(self).wf(),
            final(self).templates == old(self).templates,
            final(self).room_type_weights == old(self).room_type_weights,
            r is Ok <==> exists|i: int|
                0 <= i < old(self).templates@.len() && (#[trigger] old(self).templates@[i]).name@
                    == template_name@ && old(self).templates@[i].is_central,
            r is Ok ==> (final(self).central_room matches Some(i)
                && final(self).templates@[i as int].name@ == template_name@),
            r is Err ==> final(self).central_room == old(self).central_room,
            r is Err ==> (r->Err_0 matches GenerationError::TemplateNotFound { name }
                && name@ == template_name@),
    {
        let mut i: usize = 0;
        while i < self.templates.len()
            invariant
                *self == *old(self),
                old(self).wf(),
                i <= self.templates@.len(),
                forall|k: int|
                    0 <= k < i ==> !((#[trigger] self.templates@[k]).name@ == template_name@
                        && self.templates@[k].is_central),
            decreases self.templates@.len() - i,
        {
            if self.templates[i].is_central && same_text(self.templates[i].name, template_name) {
                self.central_room = Some(i);
                return Ok(());
            }
            i += 1;
        }
        Err(GenerationError::TemplateNotFound { name: template_name.to_owned() })
    }

    /// The pinned central template, if any.
    pub fn get_central_room(&self) -> (r: Option<&RoomTemplate>)
        requires
            self.wf(),
        ensures
            r is Some <==> self.central_room is Some,
            r is Some ==> *r->Some_0 == self.templates@[self.central_room->Some_0 as int],
    {
        match self.central_room {
            Some(i) => Some(&self.templates[i]),
            None => None,
        }
    }

    /// Forgets the pinned central template, so that one is drawn at random.
    pub fn clear_central_room(&mut self)
        ensures
            final(self).central_room is None,
            final(self).templates == old(self).templates,
            final(self).room_type_weights == old(self).room_type_weights,
    {
        self.central_room = None;
    }

    /// Indices and weights of the templates of category `t`, in catalog order.
    fn candidates(&self, t: RoomType) -> (r: (Vec<usize>, Vec<u32>))
        requires
            self.wf(),
        ensures
            r.0@.len() == type_candidates(self.templates@, t, self.templates@.len() as int).len(),
            forall|k: int|
                0 <= k < r.0@.len() ==> (#[trigger] r.0@[k]) as int == type_candidates(
                    self.templates@,
                    t,
                    self.templates@.len() as int,
                )[k],
            r.1@ == candidate_weights(
                self.templates@,
                type_candidates(self.templates@, t, self.templates@.len() as int),
            ),
            r.1@.len() <= MAX_ENTRIES,
    {
        let ghost ts = self.templates@;
        let mut idx: Vec<usize> = Vec::new();
        let mut ws: Vec<u32> = Vec::new();
        let mut i: usize = 0;
        while i < self.templates.len()
            invariant
                i <= ts.len(),
                ts == self.templates@,
                ts.len() <= MAX_ENTRIES,
                idx@.len() == type_candidates(ts, t, i as int).len(),
                forall|k: int|
                    0 <= k < idx@.len() ==> (#[trigger] idx@[k]) as int == type_candidates(
                        ts,
                        t,
                        i as int,
                    )[k],
                ws@ == candidate_weights(ts, type_candidates(ts, t, i as int)),
            decreases ts.len() - i,
        {
            proof {
                lemma_type_candidates(ts, t, i as int);
            }
            if self.templates[i].room_type == t {
                idx.push(i);
                ws.push(self.templates[i].weight);
                assert(ws@ =~= candidate_weights(ts, type_candidates(ts, t, i + 1)));
            }
            i += 1;
        }
        proof {
            lemma_type_candidates(ts, t, ts.len() as int);
        }
        (idx, ws)
    }

    /// The template of category `t` that `draw` selects (see `template_for_draw`).
    pub fn template_index_for_draw(&self, room_type: RoomType, draw: u64) -> (r: Option<usize>)
        requires
            self.wf(),
        ensures
            r matches Some(i) ==> template_for_draw(self.templates@, room_type, draw as int) == Some(
                i as int,
            ) && i < self.templates@.len() && self.templates@[i as int].room_type == room_type,
            r is None <==> (template_for_draw(self.templates@, room_type, draw as int) is None
                || draw >= weight_sum(
                candidate_weights(
                    self.templates@,
                    type_candidates(self.templates@, room_type, self.templates@.len() as int),
                ),
            ) > 0),
    {
        let (idx, ws) = self.candidates(room_type);
        proof {
            lemma_type_candidates(self.templates@, room_type, self.templates@.len() as int);
        }
        if idx.len() == 0 {
            return None;
        }
        let total = sum_weights(&ws);
        if total == 0 {
            return Some(idx[0]);
        }
        if draw >= total {
            return None;
        }
        let k = pick_weighted(&ws, draw);
        Some(idx[k])
    }

    /// A template of category `room_type`, drawn by weight; the first one when
    /// all weigh zero; none when the catalog has no such template.
    pub fn get_random_template_by_type(&self, rng: &mut StdRng, room_type: RoomType) -> (r: Option<
        &RoomTemplate,
    >)
        requires
            self.wf(),
        ensures
            r is None <==> forall|i: int|
                0 <= i < self.templates@.len() ==> (#[trigger] self.templates@[i]).room_type
                    != room_type,
            r is Some ==> (*r->Some_0).room_type == room_type && self.templates@.contains(
                *r->Some_0,
            ),
            r is Some ==> exists|d: int, i: int|
                #![trigger template_for_draw(self.templates@, room_type, d), self.templates@[i]]
                drawn_within(self.templates@, room_type, d) && template_for_draw(
                    self.templates@,
                    room_type,
                    d,
                ) == Some(i) && self.templates@[i] == *r->Some_0,
    {
        let (idx, ws) = self.candidates(room_type);
        proof {
            lemma_type_candidates(self.templates@, room_type, self.templates@.len() as int);
        }
        if idx.len() == 0 {
            return None;
        }
        let total = sum_weights(&ws);
        let draw = if total == 0 {
            0
        } else {
            draw_below(rng, total)
        };
        let chosen = self.template_index_for_draw(room_type, draw);
        match chosen {
            Some(i) => Some(&self.templates[i]),
            None => {
                proof {
                    assert(type_candidates(self.templates@, room_type, self.templates@.len() as int)[0]
                        < self.templates@.len());
                }
                None
            }
        }
    }

    /// Categories other than central with their weights, in table order.
    fn eligible_types(&self) -> (r: (Vec<RoomType>, Vec<u32>))
        requires
            self.wf(),
        ensures
            r.0@.len() == r.1@.len(),
            r.1@.len() <= MAX_ENTRIES,
            forall|k: int|
                0 <= k < r.0@.len() ==> (#[trigger] r.0@[k], r.1@[k]) == non_central(
                    self.room_type_weights.weights@,
                    self.room_type_weights.weights@.len() as int,
                )[k],
            r.0@.len() == non_central(
                self.room_type_weights.weights@,
                self.room_type_weights.weights@.len() as int,
            ).len(),
    {
        let ghost ws = self.room_type_weights.weights@;
        let mut kinds: Vec<RoomType> = Vec::new();
        let mut weights: Vec<u32> = Vec::new();
        let mut i: usize = 0;
        while i < self.room_type_weights.weights.len()
            invariant
                ws == self.room_type_weights.weights@,
                ws.len() <= MAX_ENTRIES,
                i <= ws.len(),
                kinds@.len() == weights@.len(),
                kinds@.len() == non_central(ws, i as int).len(),
                forall|k: int|
                    0 <= k < kinds@.len() ==> (#[trigger] kinds@[k], weights@[k]) == non_central(
                        ws,
                        i as int,
                    )[k],
            decreases ws.len() - i,
        {
            proof {
                lemma_non_central_members(ws, i as int);
            }
            let (t, w) = self.room_type_weights.weights[i];
            if t != RoomType::Central {
                kinds.push(t);
                weights.push(w);
            }
            i += 1;
        }
        proof {
            lemma_non_central_members(ws, ws.len() as int);
        }
        (kinds, weights)
    }

    /// A room category drawn by weight: central when `prefer_central`, else one of
    /// the other categories of the weight table; none when those all weigh zero.
    pub fn select_room_type(&self, rng: &mut StdRng, prefer_central: bool) -> (r: Option<RoomType>)
        requires
            self.wf(),
        ensures
            prefer_central ==> r == Some(RoomType::Central),
            !prefer_central ==> (r is None <==> weight_sum(
                non_central(
                    self.room_type_weights.weights@,
                    self.room_type_weights.weights@.len() as int,
                ).map_values(|e: (RoomType, u32)| e.1),
            ) == 0),
            !prefer_central && r is Some ==> r->Some_0 != RoomType::Central && exists|i: int|
                0 <= i < self.room_type_weights.weights@.len() && (
                #[trigger] self.room_type_weights.weights@[i]).0 == r->Some_0
                    && self.room_type_weights.weights@[i].1 > 0,
    {
        if prefer_central {
            return Some(RoomType::Central);
        }
        let ghost ws = self.room_type_weights.weights@;
        let (kinds, weights) = self.eligible_types();
        proof {
            lemma_non_central_members(ws, ws.len() as int);
            assert forall|k: int| 0 <= k < weights@.len() implies weights@[k] == non_central(
                ws,
                ws.len() as int,
            )[k].1 by {
                assert((kinds@[k], weights@[k]) == non_central(ws, ws.len() as int)[k]);
            }
            assert(weights@ =~= non_central(ws, ws.len() as int).map_values(
                |e: (RoomType, u32)| e.1,
            ));
        }
        let total = sum_weights(&weights);
        if total == 0 {
            return None;
        }
        let draw = draw_below(rng, total);
        let k = pick_weighted(&weights, draw);
        proof {
            assert((kinds@[k as int], weights@[k as int]) == non_central(ws, ws.len() as int)[k as int]);
            assert(ws.contains(non_central(ws, ws.len() as int)[k as int]));
        }
        Some(kinds[k])
    }

    /// A template drawn in two steps: a category by the weight table, then a
    /// template of that category by template weight.
    pub fn get_weighted_random_template(&self, rng: &mut StdRng, prefer_central: bool) -> (r:
        Option<&RoomTemplate>)
        requires
            self.wf(),
        ensures
            r is Some ==> self.templates@.contains(*r->Some_0),
            r is Some ==> (prefer_central <==> (*r->Some_0).room_type == RoomType::Central),
            prefer_central ==> (r is None <==> forall|i: int|
                0 <= i < self.templates@.len() ==> (#[trigger] self.templates@[i]).room_type
                    != RoomType::Central),
            !prefer_central && weight_sum(nc_weights(*self)) == 0 ==> r is None,
            !prefer_central && weight_sum(nc_weights(*self)) > 0 && categories_covered(*self)
                ==> r is Some,
    {
        let t = match self.select_room_type(rng, prefer_central) {
            Some(t) => t,
            None => {
                return None;
            },
        };
        proof {
            if !prefer_central && categories_covered(*self) {
                let i = choose|i: int|
                    0 <= i < self.room_type_weights.weights@.len() && (
                    #[trigger] self.room_type_weights.weights@[i]).0 == t
                        && self.room_type_weights.weights@[i].1 > 0;
                assert(self.room_type_weights.weights@[i].0 != RoomType::Central);
                let j = choose|j: int|
                    0 <= j < self.templates@.len() && (#[trigger] self.templates@[j]).room_type
                        == self.room_type_weights.weights@[i].0;
                assert(self.templates@[j].room_type == t);
            }
        }
        self.get_random_template_by_type(rng, t)
    }

    /// A template drawn by category weight and then by template weight.
    pub fn get_random_template(&self, rng: &mut StdRng, prefer_central: bool) -> (r: Option<
        &RoomTemplate,
    >)
        requires
            self.wf(),
        ensures
            r is Some ==> self.templates@.contains(*r->Some_0),
            r is Some ==> (prefer_central <==> (*r->Some_0).room_type == RoomType::Central),
            prefer_central ==> (r is None <==> forall|i: int|
                0 <= i < self.templates@.len() ==> (#[trigger] self.templates@[i]).room_type
                    != RoomType::Central),
            !prefer_central && weight_sum(nc_weights(*self)) == 0 ==> r is None,
            !prefer_central && weight_sum(nc_weights(*self)) > 0 && categories_covered(*self)
                ==> r is Some,
    {
        self.get_weighted_random_template(rng, prefer_central)
    }

    /// The pinned central template, or else one drawn among the central templates.
    pub fn get_central_template(&self, rng: &mut StdRng) -> (r: Option<&RoomTemplate>)
        requires
            self.wf(),
        ensures
            self.central_room matches Some(i) ==> r == Some(&self.templates@[i as int]),
            self.central_room is Some ==> *final(rng) == *old(rng),
            self.central_room is None ==> (r is Some ==> (*r->Some_0).room_type
                == RoomType::Central && self.templates@.contains(*r->Some_0)),
            self.central_room is None ==> (r is None <==> forall|i: int|
                0 <= i < self.templates@.len() ==> (#[trigger] self.templates@[i]).room_type
                    != RoomType::Central),
    {
        match self.central_room {
            Some(i) => Some(&self.templates[i]),
            None => self.get_random_template_by_type(rng, RoomType::Central),
        }
    }

    /// A room at (x, y) at the template's own size.
    pub fn create_room_from_template(&self, template: &RoomTemplate, x: usize, y: usize) -> (r:
        Result<Room, TemplateError>)
        ensures
            r matches Err(e) ==> parse_outcome(*template, Err(e)),
            r matches Ok(room) ==> exists|p: ParsedRoom|
                parse_outcome(*template, Ok(p)) && #[trigger] placed_from(
                    room,
                    p,
                    x as int,
                    y as int,
                    0,
                    0,
                ),
    {
        match parse_template(template) {
            Ok(parsed) => {
                let ghost p = parsed;
                let room = place_parsed(parsed, x, y, 0, 0);
                assert(placed_from(room, p, x as int, y as int, 0, 0));
                Ok(room)
            },
            Err(e) => Err(e),
        }
    }

    /// A room at (x, y) grown to at least `min_width` x `min_height`, the
    /// template centred in it.
    pub fn create_room_from_template_with_min_size(
        &self,
        template: &RoomTemplate,
        x: usize,
        y: usize,
        min_width: usize,
        min_height: usize,
    ) -> (r: Result<Room, TemplateError>)
        ensures
            r matches Err(e) ==> parse_outcome(*template, Err(e)),
            r matches Ok(room) ==> exists|p: ParsedRoom|
                parse_outcome(*template, Ok(p)) && #[trigger] placed_from(
                    room,
                    p,
                    x as int,
                    y as int,
                    min_width as int,
                    min_height as int,
                ),
    {
        match parse_template(template) {
            Ok(parsed) => {
                let ghost p = parsed;
                let room = place_parsed(parsed, x, y, min_width, min_height);
                assert(placed_from(room, p, x as int, y as int, min_width as int, min_height as int));
                Ok(room)
            },
            Err(e) => Err(e),
        }
    }
}

/// Weights of the categories other than central, in table order.
pub open spec fn nc_weights(m: RoomManager) -> Seq<u32> {
    non_central(m.room_type_weights.weights@, m.room_type_weights.weights@.len() as int).map_values(
        |e: (RoomType, u32)| e.1,
    )
}

/// Every category other than central that has a positive weight has a template.
pub open spec fn categories_covered(m: RoomManager) -> bool {
    forall|i: int|
        0 <= i < m.room_type_weights.weights@.len() && (#[trigger] m.room_type_weights.weights@[i]).0
            != RoomType::Central && m.room_type_weights.weights@[i].1 > 0 ==> exists|j: int|
            0 <= j < m.templates@.len() && (#[trigger] m.templates@[j]).room_type
                == m.room_type_weights.weights@[i].0
}

/// The template's pattern reads without error.
pub open spec fn parses(t: RoomTemplate) -> bool {
    let rows = pattern_rows(t.template@);
    rows.len() > 0 && !rows_ragged(rows) && glyphs_valid(rows)
}

/// Template `i` is the first called `name`.
pub open spec fn first_named_at(ts: Seq<RoomTemplate>, name: Seq<char>, i: int) -> bool {
    &&& 0 <= i < ts.len()
    &&& ts[i].name@ == name
    &&& forall|k: int| 0 <= k < i ==> (#[trigger] ts[k]).name@ != name
}

/// A draw from the catalog can come back empty only as `get_random_template` says.
pub open spec fn draw_owed(m: RoomManager, prefer_central: bool) -> bool {
    if prefer_central {
        exists|i: int| 0 <= i < m.templates@.len() && (#[trigger] m.templates@[i]).room_type
            == RoomType::Central
    } else {
        weight_sum(nc_weights(m)) > 0 && categories_covered(m)
    }
}

pub proof fn lemma_parse_ok(t: RoomTemplate, r: Result<ParsedRoom, TemplateError>)
    requires
        parse_outcome(t, r),
    ensures
        r is Ok <==> parses(t),
{
    let rows = pattern_rows(t.template@);
    if let Err(TemplateError::InvalidGlyph { glyph, .. }) = r {
        let (y, x) = choose|y: int, x: int|
            #![trigger rows[y][x]]
            0 <= y < rows.len() && 0 <= x < rows[y].len() && rows[y][x] == glyph && !is_glyph(glyph)
                && (forall|y2: int, x2: int|
                0 <= y2 < y && 0 <= x2 < rows[y2].len() ==> is_glyph(#[trigger] rows[y2][x2])) && (
            forall|x2: int| 0 <= x2 < x ==> is_glyph(#[trigger] rows[y][x2]));
        assert(!glyphs_valid(rows));
    }
}

impl Room {
    /// A room at (x, y) from `template`, at the template's own size.
    pub fn from_template(room_manager: &RoomManager, template: &RoomTemplate, x: usize, y: usize) -> (r:
        Result<Room, TemplateError>)
        ensures
            r matches Err(e) ==> parse_outcome(*template, Err(e)),
            r matches Ok(room) ==> exists|p: ParsedRoom|
                parse_outcome(*template, Ok(p)) && #[trigger] placed_from(
                    room,
                    p,
                    x as int,
                    y as int,
                    0,
                    0,
                ),
    {
        room_manager.create_room_from_template(template, x, y)
    }

    /// A room at (x, y) from the first template called `template_name`.
    pub fn from_template_name(room_manager: &RoomManager, template_name: &str, x: usize, y: usize) -> (r:
        Result<Room, GenerationError>)
        ensures
            r is Ok <==> exists|i: int|
                first_named_at(room_manager.templates@, template_name@, i) && parses(
                    #[trigger] room_manager.templates@[i],
                ),
            r matches Err(GenerationError::TemplateNotFound { name }) ==> name@ == template_name@
                && forall|i: int|
                0 <= i < room_manager.templates@.len() ==> (
                #[trigger] room_manager.templates@[i]).name@ != template_name@,
            r is Err ==> (r->Err_0 is TemplateNotFound || r->Err_0 is TemplateParse),
            r matches Err(GenerationError::TemplateParse(e)) ==> exists|i: int|
                first_named_at(room_manager.templates@, template_name@, i) && parse_outcome(
                    #[trigger] room_manager.templates@[i],
                    Err(e),
                ),
            r matches Ok(room) ==> exists|i: int, p: ParsedRoom|
                first_named_at(room_manager.templates@, template_name@, i) && parse_outcome(
                    #[trigger] room_manager.templates@[i],
                    Ok(p),
                ) && #[trigger] placed_from(room, p, x as int, y as int, 0, 0),
    {
        let template = match room_manager.get_template_by_name(template_name) {
            Some(t) => t,
            None => {
                return Err(GenerationError::TemplateNotFound { name: template_name.to_owned() });
            },
        };
        let ghost i = choose|i: int|
            0 <= i < room_manager.templates@.len() && room_manager.templates@[i] == *template && (
            *template).name@ == template_name@ && forall|k: int|
                0 <= k < i ==> (#[trigger] room_manager.templates@[k]).name@ != template_name@;
        assert(first_named_at(room_manager.templates@, template_name@, i));
        proof {
            assert forall|j: int| first_named_at(room_manager.templates@, template_name@, j) implies j
                == i by {
                if j < i {
                    assert(room_manager.templates@[j].name@ != template_name@);
                }
                if i < j {
                    assert(room_manager.templates@[i].name@ != template_name@);
                }
            }
        }
        let res = room_manager.create_room_from_template(template, x, y);
        proof {
            if res is Ok {
                let room = res->Ok_0;
                {
                    let p = choose|p: ParsedRoom|
                        parse_outcome(*template, Ok(p)) && #[trigger] placed_from(
                            room,
                            p,
                            x as int,
                            y as int,
                            0,
                            0,
                        );
                    lemma_parse_ok(*template, Ok(p));
                }
            } else {
                let e = res->Err_0;
                {
                    lemma_parse_ok(*template, Err(e));
                }
            }
        }
        match res {
            Ok(room) => Ok(room),
            Err(e) => Err(GenerationError::TemplateParse(e)),
        }
    }

    /// A room at (x, y) from a template drawn by weight (see `get_random_template`).
    pub fn random_from_templates(
        room_manager: &RoomManager,
        x: usize,
        y: usize,
        prefer_central: bool,
        rng: &mut StdRng,
    ) -> (r: Result<Room, GenerationError>)
        requires
            room_manager.wf(),
        ensures
            r is Err ==> (r->Err_0 is TemplateNotFound || r->Err_0 is TemplateParse),
            !prefer_central && weight_sum(nc_weights(*room_manager)) == 0 ==> r matches Err(
                GenerationError::TemplateNotFound { .. },
            ),
            r matches Err(GenerationError::TemplateNotFound { .. }) ==> !draw_owed(
                *room_manager,
                prefer_central,
            ),
            draw_owed(*room_manager, prefer_central) && (forall|i: int|
                0 <= i < room_manager.templates@.len() ==> parses(
                    #[trigger] room_manager.templates@[i],
                )) ==> r is Ok,
            r matches Err(GenerationError::TemplateParse(e)) ==> exists|i: int|
                0 <= i < room_manager.templates@.len() && (prefer_central <==> (
                #[trigger] room_manager.templates@[i]).room_type == RoomType::Central)
                    && parse_outcome(room_manager.templates@[i], Err(e)),
            r matches Ok(room) ==> exists|i: int, p: ParsedRoom|
                0 <= i < room_manager.templates@.len() && (prefer_central <==> (
                #[trigger] room_manager.templates@[i]).room_type == RoomType::Central)
                    && parse_outcome(room_manager.templates@[i], Ok(p)) && #[trigger] placed_from(
                    room,
                    p,
                    x as int,
                    y as int,
                    0,
                    0,
                ),
    {
        let template = match room_manager.get_random_template(rng, prefer_central) {
            Some(t) => t,
            None => {
                return Err(
                    GenerationError::TemplateNotFound { name: "no suitable template".to_owned() },
                );
            },
        };
        let ghost i = choose|i: int|
            0 <= i < room_manager.templates@.len() && room_manager.templates@[i] == *template;
        let res = room_manager.create_room_from_template(template, x, y);
        proof {
            if res is Ok {
                let room = res->Ok_0;
                {
                    let p = choose|p: ParsedRoom|
                        parse_outcome(*template, Ok(p)) && #[trigger] placed_from(
                            room,
                            p,
                            x as int,
                            y as int,
                            0,
                            0,
                        );
                    lemma_parse_ok(*template, Ok(p));
                }
            } else {
                let e = res->Err_0;
                {
                    lemma_parse_ok(*template, Err(e));
                    assert(parses(room_manager.templates@[i]) ==> false);
                }
            }
        }
        match res {
            Ok(room) => Ok(room),
            Err(e) => Err(GenerationError::TemplateParse(e)),
        }
    }
}

} // verus!
