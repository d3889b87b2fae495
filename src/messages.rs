use vstd::prelude::*;
use vstd::string::StringExecFns;

verus! {

/// The notice for a move between geofences, from a `(previous, current)`
/// pair; an empty name means outside every geofence. Nothing for the first
/// value or when nothing moved.
pub open spec fn geofence_notice(previous: Option<Seq<char>>, current: Seq<char>) -> Option<Seq<char>> {
    match previous {
        None => None,
        Some(p) => if p == current {
            None
        } else if p.len() == 0 {
            Some("The tesla has arrived at "@ + current)
        } else if current.len() == 0 {
            Some("The tesla has left "@ + p)
        } else {
            Some("The tesla has left "@ + p + " and arrived at "@ + current)
        },
    }
}

/// The notice for a change of the plugged-in state, from a
/// `(previous, current)` pair. Nothing for the first value or when nothing
/// changed.
pub open spec fn plugged_in_notice(previous: Option<bool>, current: bool) -> Option<Seq<char>> {
    match previous {
        Some(false) if current => Some("The tesla has been plugged in"@),
        Some(true) if !current => Some("The tesla been disconnected"@),
        _ => None,
    }
}

/// The text of an optional string.
pub open spec fn text_of(s: Option<String>) -> Option<Seq<char>> {
    match s {
        Some(t) => Some(t@),
        None => None,
    }
}

/// The notice for a move between geofences.
pub fn geofence_to_message(change: (Option<String>, String)) -> (r: Option<String>)
    ensures
        text_of(r) == geofence_notice(text_of(change.0), change.1@),
{
    proof {
        reveal_strlit("The tesla has arrived at ");
        reveal_strlit("The tesla has left ");
        reveal_strlit(" and arrived at ");
    }
    let (previous, current) = change;
    let nowhere = String::new();
    match previous {
        None => None,
        Some(p) => {
            proof {
                if p@.len() == 0 {
                    assert(p@ =~= nowhere@);
                }
                if current@.len() == 0 {
                    assert(current@ =~= nowhere@);
                }
            }
            if p == current {
                None
            } else if p == nowhere {
                let mut m = String::from_str("The tesla has arrived at ");
                m.append(current.as_str());
                Some(m)
            } else if current == nowhere {
                let mut m = String::from_str("The tesla has left ");
                m.append(p.as_str());
                Some(m)
            } else {
                let mut m = String::from_str("The tesla has left ");
                m.append(p.as_str());
                m.append(" and arrived at ");
                m.append(current.as_str());
                Some(m)
            }
        },
    }
}

/// The notice for a change of the plugged-in state.
pub fn plugged_in_to_message(change: (Option<bool>, bool)) -> (r: Option<String>)
    ensures
        text_of(r) == plugged_in_notice(change.0, change.1),
{
    proof {
        reveal_strlit("The tesla has been plugged in");
        reveal_strlit("The tesla been disconnected");
    }
    match change {
        (Some(false), true) => Some(String::from_str("The tesla has been plugged in")),
        (Some(true), false) => Some(String::from_str("The tesla been disconnected")),
        _ => None,
    }
}

} // verus!
