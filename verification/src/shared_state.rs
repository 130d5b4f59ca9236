use vstd::prelude::*;
use std::sync::{Arc, Mutex};

verus! {

/// `std::sync::Mutex`, carried through opaquely.
#[verifier::external_type_specification]
#[verifier::external_body]
#[verifier::reject_recursive_types(T)]
pub struct ExMutex<T: ?Sized>(Mutex<T>);

/// What a mutex of the selected cube holds, as it was built. The library never
/// locks these mutexes, so no verified code sees their contents change.
pub uninterp spec fn held_selected(m: Mutex<Option<(i32, i32, i32)>>) -> Option<(i32, i32, i32)>;

/// What a mutex of the requested grid size holds, as it was built. The library
/// never locks these mutexes, so no verified code sees their contents change.
pub uninterp spec fn held_xyz(m: Mutex<(u32, u32, u32)>) -> (u32, u32, u32);

/// Calls `Mutex::new`, which wraps `v` in an unlocked mutex; the claim is that the
/// new mutex holds `v`. Later writes through `lock` are not modelled: the claim
/// speaks of the mutex as it was built.
#[verifier::external_body]
fn new_selected_mutex(v: Option<(i32, i32, i32)>) -> (m: Mutex<Option<(i32, i32, i32)>>)
    ensures
        held_selected(m) == v,
{
    Mutex::new(v)
}

/// Calls `Mutex::new`, which wraps `v` in an unlocked mutex; the claim is that the
/// new mutex holds `v`. Later writes through `lock` are not modelled: the claim
/// speaks of the mutex as it was built.
#[verifier::external_body]
fn new_xyz_mutex(v: (u32, u32, u32)) -> (m: Mutex<(u32, u32, u32)>)
    ensures
        held_xyz(m) == v,
{
    Mutex::new(v)
}

/// State shared with other threads: the selected cube and the requested grid size.
#[derive(Clone)]
pub struct SharedState {
    pub selected: Arc<Mutex<Option<(i32, i32, i32)>>>,
    pub requested_xyz: Arc<Mutex<(u32, u32, u32)>>,
}

/// Nothing selected, a requested size of 5 by 5 by 5.
impl Default for SharedState {
    fn default() -> (s: Self)
        ensures
            held_selected(*s.selected) == None::<(i32, i32, i32)>,
            held_xyz(*s.requested_xyz) == (5u32, 5u32, 5u32),
    {
        SharedState {
            selected: Arc::new(new_selected_mutex(None)),
            requested_xyz: Arc::new(new_xyz_mutex((5, 5, 5))),
        }
    }
}

} // verus!
