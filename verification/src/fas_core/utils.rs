//! Choosing the frame data source and sorting the controllers.
use vstd::prelude::*;

verus! {

/// The message when no frame data source is supported.
pub open spec fn no_watcher_msg() -> Seq<char> {
    "There are currently no supported frame-aware schemes for this device"@
}

/// The message when no controller acts in daily use.
pub open spec fn no_controller_msg() -> Seq<char> {
    "This device does not currently have a supported performance controller"@
}

/// The supported controllers of `s` that act in daily use (`daily`) or only
/// in games (`!daily`), in order.
pub open spec fn select<T>(s: Seq<(T, bool, bool)>, daily: bool) -> Seq<T>
    decreases s.len(),
{
    if s.len() == 0 {
        Seq::empty()
    } else {
        let rest = select(s.drop_last(), daily);
        if s.last().1 && s.last().2 == daily {
            rest.push(s.last().0)
        } else {
            rest
        }
    }
}

/// How many of `s` are supported.
pub open spec fn supported_count<T>(s: Seq<(T, bool, bool)>) -> nat
    decreases s.len(),
{
    if s.len() == 0 {
        0
    } else {
        supported_count(s.drop_last()) + if s.last().1 {
            1nat
        } else {
            0nat
        }
    }
}

/// Every supported controller is kept in exactly one of the two lists, and
/// no unsupported one is kept.
pub proof fn law_controllers_partitioned<T>(s: Seq<(T, bool, bool)>)
    ensures
        select(s, true).len() + select(s, false).len() == supported_count(s),
    decreases s.len(),
{
    if s.len() > 0 {
        law_controllers_partitioned(s.drop_last());
    }
}

/// The first watcher of `watchers` (each with whether it is supported) that
/// is supported.
#[verifier::loop_isolation(false)]
pub fn get_watcher<T>(watchers: Vec<(T, bool)>) -> (r: Result<T, String>)
    ensures
        r matches Ok(w) ==> exists|k: int|
            0 <= k < watchers@.len() && (#[trigger] watchers@[k]).1 && watchers@[k].0 == w && forall|
                j: int,
            | 0 <= j < k ==> !(#[trigger] watchers@[j]).1,
        r matches Err(e) ==> e@ == no_watcher_msg() && forall|j: int|
            0 <= j < watchers@.len() ==> !(#[trigger] watchers@[j]).1,
{
    let ghost orig = watchers@;
    let n = watchers.len();
    let mut rest = watchers;
    let mut k: usize = 0;
    while rest.len() > 0
        invariant
            k + rest@.len() == orig.len(),
            n == orig.len(),
            rest@ == orig.skip(k as int),
            forall|j: int| 0 <= j < k ==> !(#[trigger] orig[j]).1,
        decreases rest@.len(),
    {
        let w = rest.remove(0);
        assert(w == orig[k as int]);
        if w.1 {
            assert(orig[k as int].1 && orig[k as int].0 == w.0);
            return Ok(w.0);
        }
        assert(rest@ =~= orig.skip(k + 1));
        k = k + 1;
    }
    Err(String::from_str("There are currently no supported frame-aware schemes for this device"))
}

/// The supported controllers of `controllers` (each with whether it is
/// supported and whether it acts in daily use), split into those that act in
/// daily use and those that act only in games; an error when none acts in
/// daily use.
pub fn get_controller<T>(controllers: Vec<(T, bool, bool)>) -> (r: Result<(Vec<T>, Vec<T>), String>)
    ensures
        select(controllers@, true).len() == 0 <==> r is Err,
        r matches Ok(p) ==> p.0@ == select(controllers@, true) && p.1@ == select(controllers@, false),
        r matches Err(e) ==> e@ == no_controller_msg(),
{
    let ghost orig = controllers@;
    let n = controllers.len();
    let mut rest = controllers;
    let mut only_game: Vec<T> = Vec::new();
    let mut all_support: Vec<T> = Vec::new();
    let mut k: usize = 0;
    while rest.len() > 0
        invariant
            k + rest@.len() == orig.len(),
            n == orig.len(),
            rest@ == orig.skip(k as int),
            all_support@ == select(orig.take(k as int), true),
            only_game@ == select(orig.take(k as int), false),
        decreases rest@.len(),
    {
        let c = rest.remove(0);
        assert(c == orig[k as int]);
        assert(orig.take(k + 1).drop_last() =~= orig.take(k as int));
        assert(orig.take(k + 1).last() == c);
        let (ctl, support, daily) = c;
        if support {
            if daily {
                all_support.push(ctl);
            } else {
                only_game.push(ctl);
            }
        }
        assert(rest@ =~= orig.skip(k + 1));
        k = k + 1;
    }
    assert(orig.take(k as int) =~= orig);
    if all_support.len() == 0 {
        return Err(
            String::from_str("This device does not currently have a supported performance controller"),
        );
    }
    Ok((all_support, only_game))
}

} // verus!
