//! Which entity owns each brush model of a map, and which models are drawn:
//! models of triggers and ladders, and models that their entity renders
//! invisible or blended, are left out of the opaque pass.
use vstd::prelude::*;
use vstd::string::{StrSliceExecFns, StringExecFns};
use std::collections::{HashMap, HashSet};
use crate::logic::entity::{ModelReference, RenderMode};
use crate::text::str_eq;

verus! {

broadcast use vstd::std_specs::hash::group_hash_axioms;

/// What the drawing rules read of an entity.
pub struct EntityModelInfo {
    pub class_name: String,
    pub model: Option<ModelReference>,
    pub render_mode: Option<RenderMode>,
    pub render_amount: Option<i32>,
}

/// The brush model that the entity uses, if it names one by index.
pub open spec fn spec_model_index(e: EntityModelInfo) -> Option<usize> {
    match e.model {
        Some(ModelReference::Index(i)) => Some(i),
        _ => None,
    }
}

/// A render mode other than normal, with this amount.
pub open spec fn spec_renders_with(e: EntityModelInfo, amount: i32) -> bool {
    &&& e.render_mode matches Some(m) && m != RenderMode::Normal
    &&& e.render_amount == Some(amount)
}

/// The entity draws its model blended: a render mode other than normal, with
/// an amount other than 0 and 255.
pub open spec fn spec_is_transparent(e: EntityModelInfo) -> bool {
    &&& e.render_mode matches Some(m) && m != RenderMode::Normal
    &&& e.render_amount matches Some(a) && a != 0 && a != 255
}

/// `s` starts with `p`.
pub open spec fn spec_starts_with(s: Seq<char>, p: Seq<char>) -> bool {
    p.len() <= s.len() && s.subrange(0, p.len() as int) == p
}

/// The entity is a trigger or a ladder, whose model is a volume, not a surface.
pub open spec fn spec_is_volume(e: EntityModelInfo) -> bool {
    spec_starts_with(e.class_name@, "trigger"@) || spec_starts_with(e.class_name@, "func_ladder"@)
}

/// Entity `e` keeps model `m` out of the opaque pass.
pub open spec fn spec_hides(e: EntityModelInfo, m: usize) -> bool {
    &&& spec_model_index(e) == Some(m)
    &&& spec_is_transparent(e) || spec_renders_with(e, 0) || spec_is_volume(e)
}

/// Some entity keeps model `m` out of the opaque pass.
pub open spec fn spec_hidden(es: Seq<EntityModelInfo>, m: usize) -> bool {
    exists|k: int| 0 <= k < es.len() && spec_hides(#[trigger] es[k], m)
}

/// The models below `n` that are drawn in the opaque pass, in order.
pub open spec fn spec_models_to_render(es: Seq<EntityModelInfo>, n: nat) -> Seq<usize>
    decreases n,
{
    if n == 0 {
        Seq::empty()
    } else {
        let rest = spec_models_to_render(es, (n - 1) as nat);
        if spec_hidden(es, (n - 1) as usize) {
            rest
        } else {
            rest.push((n - 1) as usize)
        }
    }
}

/// The models drawn blended: those of the entities that render them so.
pub open spec fn spec_transparent_models(es: Seq<EntityModelInfo>) -> Set<usize> {
    Set::new(
        |m: usize|
            exists|k: int|
                0 <= k < es.len() && spec_model_index(#[trigger] es[k]) == Some(m) && spec_is_transparent(
                    es[k],
                ),
    )
}

/// The entity that uses each model; `None` when two entities name the same
/// model.
pub open spec fn spec_model_to_entity(es: Seq<EntityModelInfo>) -> Option<Map<usize, usize>>
    decreases es.len(),
{
    if es.len() == 0 {
        Some(Map::empty())
    } else {
        match spec_model_to_entity(es.drop_last()) {
            None => None,
            Some(m) => match spec_model_index(es.last()) {
                Some(i) => if m.contains_key(i) {
                    None
                } else {
                    Some(m.insert(i, (es.len() - 1) as usize))
                },
                None => Some(m),
            },
        }
    }
}

/// Whether `s` starts with `p`.
fn starts_with(s: &str, p: &str) -> (res: bool)
    ensures
        res == spec_starts_with(s@, p@),
{
    let s_len = s.unicode_len();
    let p_len = p.unicode_len();
    if p_len > s_len {
        return false;
    }
    str_eq(s.substring_char(0, p_len), p)
}

/// The model index of an entity.
fn model_index(e: &EntityModelInfo) -> (res: Option<usize>)
    ensures
        res == spec_model_index(*e),
{
    match &e.model {
        Some(ModelReference::Index(i)) => Some(*i),
        _ => None,
    }
}

fn hides(e: &EntityModelInfo) -> (res: (bool, bool))
    ensures
        res.0 == spec_is_transparent(*e),
        res.1 == (spec_is_transparent(*e) || spec_renders_with(*e, 0) || spec_is_volume(*e)),
{
    let special = match e.render_mode {
        Some(m) => m != RenderMode::Normal,
        None => false,
    };
    let transparent = special && match e.render_amount {
        Some(a) => a != 0 && a != 255,
        None => false,
    };
    let invisible = special && match e.render_amount {
        Some(a) => a == 0,
        None => false,
    };
    let volume = starts_with(e.class_name.as_str(), "trigger") || starts_with(e.class_name.as_str(), "func_ladder");
    (transparent, transparent || invisible || volume)
}

/// Maps each model to the entity that names it; `None` when two entities
/// name the same model.
pub fn model_to_entity(entities: &Vec<EntityModelInfo>) -> (res: Option<HashMap<usize, usize>>)
    ensures
        match spec_model_to_entity(entities@) {
            Some(m) => res matches Some(map) && map@ == m,
            None => res is None,
        },
{
    let mut map: HashMap<usize, usize> = HashMap::new();
    let n = entities.len();
    let mut i: usize = 0;
    while i < n
        invariant
            n == entities@.len(),
            0 <= i <= n,
            spec_model_to_entity(entities@.take(i as int)) == Some(map@),
        decreases n - i,
    {
        proof {
            let t = entities@.take(i + 1);
            assert(t.drop_last() =~= entities@.take(i as int));
            assert(t.last() == entities@[i as int]);
        }
        match model_index(&entities[i]) {
            Some(m) => {
                let old = map.insert(m, i);
                if old.is_some() {
                    proof {
                        lemma_model_to_entity_none(entities@, i as int);
                    }
                    return None;
                }
            },
            None => {},
        }
        i += 1;
    }
    assert(entities@.take(n as int) =~= entities@);
    Some(map)
}

proof fn lemma_model_to_entity_none(es: Seq<EntityModelInfo>, i: int)
    requires
        0 <= i < es.len(),
        spec_model_to_entity(es.take(i + 1)) is None,
    ensures
        spec_model_to_entity(es) is None,
    decreases es.len(),
{
    if i + 1 < es.len() {
        assert(es.drop_last().take(i + 1) =~= es.take(i + 1));
        lemma_model_to_entity_none(es.drop_last(), i);
    } else {
        assert(es.take(i + 1) =~= es);
    }
}

/// The models below `model_count` that are drawn in the opaque pass, in
/// order, and the models that are drawn blended.
pub fn models_to_render(model_count: usize, entities: &Vec<EntityModelInfo>) -> (res: (Vec<usize>, HashSet<usize>))
    ensures
        res.0@ == spec_models_to_render(entities@, model_count as nat),
        res.1@ == spec_transparent_models(entities@),
{
    let mut hidden: Vec<bool> = Vec::new();
    let mut k: usize = 0;
    while k < model_count
        invariant
            0 <= k <= model_count,
            hidden@.len() == k,
            forall|j: int| 0 <= j < k ==> !hidden@[j],
        decreases model_count - k,
    {
        hidden.push(false);
        k += 1;
    }
    let mut transparent_models: HashSet<usize> = HashSet::new();
    let n = entities.len();
    let mut i: usize = 0;
    while i < n
        invariant
            n == entities@.len(),
            0 <= i <= n,
            hidden@.len() == model_count,
            forall|j: int| 0 <= j < model_count ==> #[trigger] hidden@[j] == spec_hidden(entities@.take(i as int), j as usize),
            forall|m: usize| #[trigger] transparent_models@.contains(m) == spec_transparent_models(entities@.take(i as int)).contains(m),
        decreases n - i,
    {
        let ghost before = entities@.take(i as int);
        let ghost after = entities@.take(i + 1);
        proof {
            assert(after.drop_last() =~= before);
            assert(after.last() == entities@[i as int]);
            assert forall|j: usize| #[trigger] spec_hidden(after, j) == (spec_hidden(before, j) || spec_hides(entities@[i as int], j)) by {
                if spec_hidden(after, j) {
                    let k = choose|k: int| 0 <= k < after.len() && spec_hides(#[trigger] after[k], j);
                    if k < i {
                        assert(before[k] == after[k]);
                    }
                }
                if spec_hidden(before, j) {
                    let k = choose|k: int| 0 <= k < before.len() && spec_hides(#[trigger] before[k], j);
                    assert(after[k] == before[k]);
                }
                if spec_hides(entities@[i as int], j) {
                    assert(after[i as int] == entities@[i as int]);
                }
            }
            assert forall|m: usize| #[trigger] spec_transparent_models(after).contains(m) == (spec_transparent_models(before).contains(m) || (spec_model_index(entities@[i as int]) == Some(m) && spec_is_transparent(entities@[i as int]))) by {
                if spec_transparent_models(after).contains(m) {
                    let k = choose|k: int| 0 <= k < after.len() && spec_model_index(#[trigger] after[k]) == Some(m) && spec_is_transparent(after[k]);
                    if k < i {
                        assert(before[k] == after[k]);
                    }
                }
                if spec_transparent_models(before).contains(m) {
                    let k = choose|k: int| 0 <= k < before.len() && spec_model_index(#[trigger] before[k]) == Some(m) && spec_is_transparent(before[k]);
                    assert(after[k] == before[k]);
                }
                if spec_model_index(entities@[i as int]) == Some(m) && spec_is_transparent(entities@[i as int]) {
                    assert(after[i as int] == entities@[i as int]);
                }
            }
        }
        let e = &entities[i];
        match model_index(e) {
            Some(m) => {
                let (transparent, hide) = hides(e);
                if transparent {
                    transparent_models.insert(m);
                }
                if hide && m < model_count {
                    hidden.set(m, true);
                }
            },
            None => {},
        }
        i += 1;
    }
    assert(entities@.take(n as int) =~= entities@);
    let mut list: Vec<usize> = Vec::new();
    let mut j: usize = 0;
    while j < model_count
        invariant
            0 <= j <= model_count,
            hidden@.len() == model_count,
            forall|q: int| 0 <= q < model_count ==> #[trigger] hidden@[q] == spec_hidden(entities@, q as usize),
            list@ == spec_models_to_render(entities@, j as nat),
        decreases model_count - j,
    {
        if !hidden[j] {
            list.push(j);
        }
        j += 1;
    }
    proof {
        assert(transparent_models@ =~= spec_transparent_models(entities@));
    }
    (list, transparent_models)
}

} // verus!
