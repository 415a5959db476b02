use std::collections::HashMap;
use vstd::prelude::*;
use crate::activity::{keys_distinct, map_of, ActivityState};

verus! {

/// What serde_json reads from a text as an object of identities and
/// unsigned 64-bit seconds; `None` where the text is no such object.
pub uninterp spec fn json_uptimes(text: Seq<char>) -> Option<Map<Seq<char>, u64>>;

/// The state that a stored text stands for: its object where it holds one,
/// and no identity at all where it is empty, cut short or otherwise invalid.
pub open spec fn stored_state(text: Seq<char>) -> Map<Seq<char>, u64> {
    match json_uptimes(text) {
        Some(m) => m,
        None => Map::empty(),
    }
}

/// Relies on serde_json::to_string of a `HashMap<String, u64>`: a map with
/// string keys never fails to serialize, and serde_json reads the text it
/// wrote back as the same map.
#[verifier::external_body]
fn write_json(entries: &Vec<(String, u64)>) -> (r: String)
    requires
        keys_distinct(entries@),
    ensures
        json_uptimes(r@) == Some(map_of(entries@)),
{
    let m: HashMap<String, u64> = entries.iter().cloned().collect();
    serde_json::to_string(&m).unwrap_or_default()
}

/// Relies on serde_json::from_str into a `HashMap<String, u64>`: the map it
/// reads, handed out as entries, or `None` where it refuses the text.
#[verifier::external_body]
fn read_json(text: &str) -> (r: Option<Vec<(String, u64)>>)
    ensures
        match r {
            Some(v) => json_uptimes(text@) == Some(map_of(v@)),
            None => json_uptimes(text@) is None,
        },
{
    match serde_json::from_str::<HashMap<String, u64>>(text) {
        Ok(m) => Some(m.into_iter().collect()),
        Err(_) => None,
    }
}

/// The text that the store file holds for `state`: the whole mapping as one
/// JSON object.
pub fn save(state: &ActivityState) -> (r: String)
    requires
        state.wf(),
    ensures
        json_uptimes(r@) == Some(state@),
{
    write_json(state.entries())
}

/// The state held by the store file's text. An empty or invalid text gives
/// the empty state: losing history is preferred to refusing to start.
pub fn load(text: &str) -> (r: ActivityState)
    ensures
        r.wf(),
        r@ == stored_state(text@),
{
    let mut st = ActivityState::new();
    match read_json(text) {
        Some(v) => {
            let mut i: usize = 0;
            while i < v.len()
                invariant
                    i <= v@.len(),
                    st.wf(),
                    st@ == map_of(v@.subrange(0, i as int)),
                    json_uptimes(text@) == Some(map_of(v@)),
                decreases v@.len() - i,
            {
                st.set(v[i].0.clone(), v[i].1);
                proof {
                    assert(v@.subrange(0, i + 1).drop_last() =~= v@.subrange(0, i as int));
                }
                i += 1;
            }
            proof {
                assert(v@.subrange(0, v@.len() as int) =~= v@);
            }
        },
        None => {},
    }
    st
}

/// Loading what was saved gives back the saved state, the empty one
/// included: whatever text `save` hands out for a state, `load` reads that
/// state from it.
pub proof fn lemma_round_trip(state: Map<Seq<char>, u64>, text: Seq<char>)
    requires
        json_uptimes(text) == Some(state),
    ensures
        stored_state(text) == state,
{
}

} // verus!
