//! Outputs that come and go while the session runs.

use vstd::prelude::*;
use vstd::string::*;

use crate::desktop::LayoutModel;
use crate::layout::{name_view, Layout};
use crate::text::{is_listed, listed, texts};

verus! {

/// The outputs among the first `n` that are no longer connected.
pub open spec fn missing(existing: Seq<String>, connected: Seq<String>, n: int) -> Seq<Seq<char>>
    decreases n,
{
    if n <= 0 {
        Seq::empty()
    } else if listed(connected, existing[n - 1]@) {
        missing(existing, connected, n - 1)
    } else {
        missing(existing, connected, n - 1).push(existing[n - 1]@)
    }
}

/// The first output at or after `from` that is still connected: it takes the
/// windows of those that are not.
pub open spec fn survivor(existing: Seq<String>, connected: Seq<String>, from: int) -> Option<
    Seq<char>,
>
    decreases existing.len() - from,
{
    if from < 0 || from >= existing.len() {
        None
    } else if listed(connected, existing[from]@) {
        Some(existing[from]@)
    } else {
        survivor(existing, connected, from + 1)
    }
}

/// The desktop after the first `n` of some outputs were unplugged.
pub open spec fn unplugged(
    m: LayoutModel,
    gone: Seq<Seq<char>>,
    fallback: Option<Seq<char>>,
    n: int,
) -> LayoutModel
    decreases n,
{
    if n <= 0 {
        m
    } else {
        unplugged(m, gone, fallback, n - 1).unplugging(gone[n - 1], fallback)
    }
}

fn find_survivor(existing: &Vec<String>, connected: &Vec<String>) -> (r: Option<usize>)
    ensures
        r.is_some() == survivor(existing@, connected@, 0).is_some(),
        r matches Some(i) ==> i < existing@.len() && survivor(existing@, connected@, 0) == Some(
            existing@[i as int]@,
        ) && listed(connected@, existing@[i as int]@),
{
    let mut i: usize = 0;
    while i < existing.len()
        invariant
            i <= existing@.len(),
            survivor(existing@, connected@, 0) == survivor(existing@, connected@, i as int),
        decreases existing@.len() - i,
    {
        if is_listed(connected, existing[i].as_str()) {
            return Some(i);
        }
        i += 1;
    }
    None
}

/// The outputs that are no longer connected.
pub fn missing_outputs(existing: &Vec<String>, connected: &Vec<String>) -> (r: Vec<String>)
    ensures
        texts(r@) == missing(existing@, connected@, existing@.len() as int),
        forall|i: int| 0 <= i < r@.len() ==> !listed(connected@, (#[trigger] r@[i])@),
{
    let mut out: Vec<String> = Vec::new();
    let mut i: usize = 0;
    while i < existing.len()
        invariant
            i <= existing@.len(),
            texts(out@) =~= missing(existing@, connected@, i as int),
            forall|k: int| 0 <= k < out@.len() ==> !listed(connected@, (#[trigger] out@[k])@),
        decreases existing@.len() - i,
    {
        if !is_listed(connected, existing[i].as_str()) {
            let ghost was = texts(out@);
            out.push(existing[i].clone());
            assert(texts(out@) =~= was.push(existing@[i as int]@));
        }
        i += 1;
    }
    out
}

/// Takes the outputs that are no longer connected out of the layout; their
/// windows go to the first one that still is. The result names those that are
/// gone.
pub fn handle_drm_changed(
    layout: &mut Layout,
    existing: &Vec<String>,
    connected: &Vec<String>,
) -> (r: Vec<String>)
    requires
        old(layout)@.valid(),
    ensures
        texts(r@) == missing(existing@, connected@, existing@.len() as int),
        final(layout)@ == unplugged(
            old(layout)@,
            texts(r@),
            survivor(existing@, connected@, 0),
            r@.len() as int,
        ),
        final(layout)@.valid(),
{
    let gone = missing_outputs(existing, connected);
    let heir = find_survivor(existing, connected);
    let fallback: Option<&str> = match heir {
        None => None,
        Some(i) => Some(existing[i].as_str()),
    };
    let ghost fb = survivor(existing@, connected@, 0);
    assert(name_view(fallback) == fb);
    let mut i: usize = 0;
    while i < gone.len()
        invariant
            i <= gone@.len(),
            layout@.valid(),
            name_view(fallback) == fb,
            fallback matches Some(f) ==> listed(connected@, f@),
            forall|k: int| 0 <= k < gone@.len() ==> !listed(connected@, (#[trigger] gone@[k])@),
            layout@ == unplugged(old(layout)@, texts(gone@), fb, i as int),
        decreases gone@.len() - i,
    {
        assert(!listed(connected@, gone@[i as int]@));
        layout.remove_output(gone[i].as_str(), fallback);
        i += 1;
    }
    gone
}

/// The outputs that are gone are those that were driven and are no longer
/// connected.
pub proof fn what_is_not_connected_is_gone(
    existing: Seq<String>,
    connected: Seq<String>,
    n: int,
    name: Seq<char>,
)
    requires
        0 <= n <= existing.len(),
    ensures
        missing(existing, connected, n).contains(name) <==> (exists|i: int|
            0 <= i < n && (#[trigger] existing[i])@ == name) && (forall|i: int|
            0 <= i < connected.len() ==> (#[trigger] connected[i])@ != name),
    decreases n,
{
    let all = missing(existing, connected, n);
    if n > 0 {
        what_is_not_connected_is_gone(existing, connected, n - 1, name);
        let before = missing(existing, connected, n - 1);
        if before.contains(name) {
            let i = choose|i: int| 0 <= i < before.len() && before[i] == name;
            assert(all[i] == name);
        }
        if all.contains(name) {
            let i = choose|i: int| 0 <= i < all.len() && all[i] == name;
            if i < before.len() {
                assert(before[i] == name);
            } else {
                assert(existing[n - 1]@ == name);
            }
        }
        if existing[n - 1]@ == name && !listed(connected, name) {
            assert(all.last() == name);
        }
    }
}

/// The heir of lost outputs is the first one that is still connected; there is
/// none only where all are lost.
pub proof fn the_first_output_left_is_the_heir(
    existing: Seq<String>,
    connected: Seq<String>,
    from: int,
)
    requires
        0 <= from,
    ensures
        match survivor(existing, connected, from) {
            None => forall|i: int|
                from <= i < existing.len() ==> !listed(connected, (#[trigger] existing[i])@),
            Some(name) => exists|i: int|
                from <= i < existing.len() && (#[trigger] existing[i])@ == name && listed(
                    connected,
                    name,
                ) && forall|j: int|
                    from <= j < i ==> !listed(connected, (#[trigger] existing[j])@),
        },
    decreases existing.len() - from,
{
    if from < existing.len() {
        if listed(connected, existing[from]@) {
            assert(existing[from]@ == existing[from]@);
        } else {
            the_first_output_left_is_the_heir(existing, connected, from + 1);
        }
    }
}

/// Lost outputs leave one after the other.
pub proof fn lost_outputs_leave_one_by_one(
    m: LayoutModel,
    gone: Seq<Seq<char>>,
    name: Seq<char>,
    fallback: Option<Seq<char>>,
)
    ensures
        unplugged(m, gone, fallback, 0) == m,
        unplugged(m, gone.push(name), fallback, gone.len() as int + 1) == unplugged(
            m,
            gone,
            fallback,
            gone.len() as int,
        ).unplugging(name, fallback),
{
    same_outputs_leave(m, gone, name, fallback, gone.len() as int);
}

proof fn same_outputs_leave(
    m: LayoutModel,
    gone: Seq<Seq<char>>,
    name: Seq<char>,
    fallback: Option<Seq<char>>,
    n: int,
)
    requires
        n <= gone.len(),
    ensures
        unplugged(m, gone.push(name), fallback, n) == unplugged(m, gone, fallback, n),
    decreases n,
{
    if n > 0 {
        same_outputs_leave(m, gone, name, fallback, n - 1);
    }
}

} // verus!
