//! The update policy: which of the firmware images at hand, if any, a module
//! is brought up to.

use vstd::prelude::*;
use crate::version::{FirmwareVersion, BLANK};

verus! {

/// Whether the software version `sw` is the mark of an erased module.
pub open spec fn is_blank(sw: Seq<u8>) -> bool {
    sw[0] == BLANK && sw[1] == BLANK && sw[2] == BLANK
}

/// Whether the software version `a` comes after `b`, byte by byte from the
/// first.
pub open spec fn later(a: Seq<u8>, b: Seq<u8>) -> bool {
    a[0] > b[0] || (a[0] == b[0] && (a[1] > b[1] || (a[1] == b[1] && a[2] > b[2])))
}

/// Whether two versions are for the same hardware.
pub open spec fn compatible(a: FirmwareVersion, b: FirmwareVersion) -> bool {
    a.hardware() == b.hardware()
}

/// Whether `candidate` upgrades `current`: it is for the same hardware, it is
/// not blank, and its software comes after the current one or the current
/// one is blank.
pub open spec fn upgrades(candidate: FirmwareVersion, current: FirmwareVersion) -> bool {
    &&& compatible(candidate, current)
    &&& !is_blank(candidate.software())
    &&& (later(candidate.software(), current.software()) || is_blank(current.software()))
}

/// Whether `choice` is what the policy picks for `current` among
/// `candidates`: the first of those that upgrade `current` whose software no
/// other of them comes after; nothing, where none upgrades it.
pub open spec fn is_choice(
    current: FirmwareVersion,
    candidates: Seq<FirmwareVersion>,
    choice: Option<usize>,
) -> bool {
    match choice {
        None => forall|j: int| 0 <= j < candidates.len() ==> !upgrades(#[trigger] candidates[j], current),
        Some(i) => {
            &&& i < candidates.len()
            &&& upgrades(candidates[i as int], current)
            &&& forall|j: int|
                0 <= j < candidates.len() && upgrades(#[trigger] candidates[j], current) ==> !later(
                    candidates[j].software(),
                    candidates[i as int].software(),
                )
            &&& forall|j: int|
                0 <= j < i && upgrades(#[trigger] candidates[j], current) ==> later(
                    candidates[i as int].software(),
                    candidates[j].software(),
                )
        },
    }
}

/// Those of `candidates` that are for the hardware of `current`, in their
/// order.
pub open spec fn offered(current: FirmwareVersion, candidates: Seq<FirmwareVersion>) -> Seq<
    FirmwareVersion,
>
    decreases candidates.len(),
{
    if candidates.len() == 0 {
        Seq::empty()
    } else if compatible(candidates.last(), current) {
        offered(current, candidates.drop_last()).push(candidates.last())
    } else {
        offered(current, candidates.drop_last())
    }
}

/// Lists the images that may be written to a module running `current`: those
/// for its hardware, whatever their software.
pub fn compatible_versions(current: &FirmwareVersion, candidates: &[FirmwareVersion]) -> (list:
    Vec<FirmwareVersion>)
    ensures
        list@ == offered(*current, candidates@),
{
    let mut list: Vec<FirmwareVersion> = Vec::new();
    let mut i: usize = 0;
    assert(candidates@.take(0) =~= Seq::<FirmwareVersion>::empty());
    while i < candidates.len()
        invariant
            i <= candidates@.len(),
            list@ == offered(*current, candidates@.take(i as int)),
        decreases candidates@.len() - i,
    {
        proof {
            let next = candidates@.take(i + 1);
            assert(next.drop_last() =~= candidates@.take(i as int));
            assert(next.last() == candidates@[i as int]);
        }
        if is_compatible(&candidates[i], current) {
            list.push(candidates[i]);
        }
        i += 1;
    }
    assert(candidates@.take(i as int) =~= candidates@);
    list
}

/// Tells whether two versions are for the same hardware.
pub fn is_compatible(a: &FirmwareVersion, b: &FirmwareVersion) -> (same: bool)
    ensures
        same == compatible(*a, *b),
{
    let same = a.firmware[0] == b.firmware[0] && a.firmware[1] == b.firmware[1] && a.firmware[2]
        == b.firmware[2] && a.firmware[3] == b.firmware[3];
    proof {
        if same {
            assert(a.hardware() =~= b.hardware());
        } else {
            assert(a.hardware()[0] == a.firmware@[0] && b.hardware()[0] == b.firmware@[0]);
            assert(a.hardware()[1] == a.firmware@[1] && b.hardware()[1] == b.firmware@[1]);
            assert(a.hardware()[2] == a.firmware@[2] && b.hardware()[2] == b.firmware@[2]);
            assert(a.hardware()[3] == a.firmware@[3] && b.hardware()[3] == b.firmware@[3]);
        }
    }
    same
}

/// Tells whether the software of `version` is blank.
pub fn has_blank_software(version: &FirmwareVersion) -> (blank: bool)
    ensures
        blank == is_blank(version.software()),
{
    version.firmware[4] == BLANK && version.firmware[5] == BLANK && version.firmware[6] == BLANK
}

/// Tells whether the software of `a` comes after that of `b`.
pub fn is_later(a: &FirmwareVersion, b: &FirmwareVersion) -> (after: bool)
    ensures
        after == later(a.software(), b.software()),
{
    a.firmware[4] > b.firmware[4] || (a.firmware[4] == b.firmware[4] && (a.firmware[5]
        > b.firmware[5] || (a.firmware[5] == b.firmware[5] && a.firmware[6] > b.firmware[6])))
}

/// Tells whether `candidate` upgrades `current`.
pub fn is_upgrade(candidate: &FirmwareVersion, current: &FirmwareVersion) -> (yes: bool)
    ensures
        yes == upgrades(*candidate, *current),
{
    is_compatible(candidate, current) && !has_blank_software(candidate) && (is_later(
        candidate,
        current,
    ) || has_blank_software(current))
}

/// Picks the image that a module running `current` is updated to: the index
/// in `candidates` of the policy's choice, or `None` where there is no
/// update.
pub fn select_update(current: &FirmwareVersion, candidates: &[FirmwareVersion]) -> (choice:
    Option<usize>)
    ensures
        is_choice(*current, candidates@, choice),
{
    let mut choice: Option<usize> = None;
    let mut j: usize = 0;
    while j < candidates.len()
        invariant
            j <= candidates@.len(),
            is_choice(*current, candidates@.take(j as int), choice),
        decreases candidates@.len() - j,
    {
        let ghost seen = candidates@.take(j as int);
        let ghost next = candidates@.take(j + 1);
        let candidate = &candidates[j];
        let ghost before = choice;
        if is_upgrade(candidate, current) {
            choice = match choice {
                None => Some(j),
                Some(best) => if is_later(candidate, &candidates[best]) {
                    Some(j)
                } else {
                    Some(best)
                },
            };
        }
        proof {
            assert forall|k: int| 0 <= k < j implies next[k] == seen[k] by {}
            assert(next[j as int] == candidates@[j as int]);
            match before {
                None => {
                    assert forall|k: int| 0 <= k < j implies !upgrades(
                        #[trigger] next[k],
                        *current,
                    ) by {
                        assert(!upgrades(seen[k], *current));
                    }
                },
                Some(best) => {
                    assert(next[best as int] == seen[best as int]);
                    assert forall|k: int|
                        0 <= k < j && upgrades(#[trigger] next[k], *current) implies !later(
                        next[k].software(),
                        seen[best as int].software(),
                    ) && (k < best ==> later(seen[best as int].software(), next[k].software())) by {
                        assert(upgrades(seen[k], *current));
                    }
                },
            }
            assert(is_choice(*current, next, choice));
        }
        j += 1;
    }
    assert(candidates@.take(j as int) =~= candidates@);
    choice
}

/// What the policy picks upgrades the current version; so it is for the same
/// hardware, it is not blank, it comes after the current software unless
/// that is blank, and its software is the greatest among the candidates that
/// upgrade the current version.
pub proof fn law_choice_is_greatest_upgrade(
    current: FirmwareVersion,
    candidates: Seq<FirmwareVersion>,
    choice: Option<usize>,
)
    requires
        is_choice(current, candidates, choice),
    ensures
        choice matches Some(i) ==> {
            let c = candidates[i as int];
            &&& c.hardware() == current.hardware()
            &&& !is_blank(c.software())
            &&& later(c.software(), current.software()) || is_blank(current.software())
            &&& forall|j: int|
                0 <= j < candidates.len() && upgrades(#[trigger] candidates[j], current)
                    ==> candidates[j].software() == c.software() || later(
                    c.software(),
                    candidates[j].software(),
                )
        },
        choice is None <==> forall|j: int|
            0 <= j < candidates.len() ==> !upgrades(#[trigger] candidates[j], current),
{
    if let Some(i) = choice {
        let c = candidates[i as int];
        assert forall|j: int|
            0 <= j < candidates.len() && upgrades(
                #[trigger] candidates[j],
                current,
            ) implies candidates[j].software() == c.software() || later(
            c.software(),
            candidates[j].software(),
        ) by {
            let s = candidates[j].software();
            let t = c.software();
            assert(!later(s, t));
            if !later(t, s) {
                assert(s =~= t);
            }
        }
    }
}

} // verus!
