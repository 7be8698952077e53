//! What discovery finds, stated against a model of the transport: the first
//! resource, in the order of the patterns and of each listing, that opens,
//! takes the query, answers with the vendor's name and opens again.

use crate::error::ErrorKind;
use crate::locator::{
    after_candidate, after_pattern, locator_step, vendor_tag, EventView, LocatorState, Probe,
    PATTERN_COUNT,
};
use crate::wire::contains;
use vstd::prelude::*;

verus! {

/// What the transport does with one resource while it is probed.
pub struct Trial {
    /// Whether the resource opens for probing.
    pub opens: bool,
    /// Whether the identification query can be written.
    pub writes: bool,
    /// The line that is read back, if the read succeeds.
    pub answer: Option<Seq<u8>>,
    /// Whether the resource opens again, for use.
    pub reopens: bool,
}

impl Trial {
    /// Whether the resource passes every step of the probe and names the vendor.
    pub open spec fn accepted(self) -> bool {
        &&& self.opens
        &&& self.writes
        &&& self.answer is Some
        &&& contains(self.answer->Some_0, vendor_tag())
        &&& self.reopens
    }
}

/// A transport as the search meets it.
pub struct Bench {
    /// Whether the resource of a given host opens.
    pub host_opens: bool,
    /// What listing a pattern gives, if the listing succeeds.
    pub listing: spec_fn(nat) -> Option<Seq<Seq<u8>>>,
    /// What becomes of the probe of one resource of one pattern's listing.
    pub trial: spec_fn(nat, nat) -> Trial,
}

/// The event with which the bench answers the request of state `s`.
pub open spec fn event_for(s: LocatorState, bench: Bench) -> EventView {
    match s {
        LocatorState::Direct(_) => if bench.host_opens {
            EventView::Opened
        } else {
            EventView::Failed
        },
        LocatorState::Listing(pattern) => match (bench.listing)(pattern) {
            Some(list) => EventView::Listed(list),
            None => EventView::Failed,
        },
        LocatorState::Opening(probe) => if (bench.trial)(probe.pattern, probe.index).opens {
            EventView::Opened
        } else {
            EventView::Failed
        },
        LocatorState::Asking(probe) => if (bench.trial)(probe.pattern, probe.index).writes {
            EventView::Written
        } else {
            EventView::Failed
        },
        LocatorState::Listening(probe) => match (bench.trial)(probe.pattern, probe.index).answer {
            Some(line) => EventView::Line(line),
            None => EventView::Failed,
        },
        LocatorState::Reopening(probe) => if (bench.trial)(probe.pattern, probe.index).reopens {
            EventView::Opened
        } else {
            EventView::Failed
        },
        LocatorState::Found(_) => EventView::Failed,
        LocatorState::Failed(_) => EventView::Failed,
    }
}

/// The number of patterns that a state has not yet left behind.
pub open spec fn patterns_left(s: LocatorState) -> nat {
    match s {
        LocatorState::Direct(_) => 1,
        LocatorState::Listing(pattern) => (PATTERN_COUNT - pattern) as nat,
        LocatorState::Opening(probe) => (PATTERN_COUNT - probe.pattern) as nat,
        LocatorState::Asking(probe) => (PATTERN_COUNT - probe.pattern) as nat,
        LocatorState::Listening(probe) => (PATTERN_COUNT - probe.pattern) as nat,
        LocatorState::Reopening(probe) => (PATTERN_COUNT - probe.pattern) as nat,
        LocatorState::Found(_) => 0,
        LocatorState::Failed(_) => 0,
    }
}

/// 1 while the pattern's listing is still to come, 0 after it.
pub open spec fn listings_left(s: LocatorState) -> nat {
    if s is Listing {
        1
    } else {
        0
    }
}

/// The number of resources of the listing that a state has not yet left behind.
pub open spec fn candidates_left(s: LocatorState) -> nat {
    match s {
        LocatorState::Opening(probe) => (probe.candidates.len() - probe.index) as nat,
        LocatorState::Asking(probe) => (probe.candidates.len() - probe.index) as nat,
        LocatorState::Listening(probe) => (probe.candidates.len() - probe.index) as nat,
        LocatorState::Reopening(probe) => (probe.candidates.len() - probe.index) as nat,
        _ => 0,
    }
}

/// The number of steps of the probe that a state has still before it.
pub open spec fn probe_steps_left(s: LocatorState) -> nat {
    match s {
        LocatorState::Opening(_) => 4,
        LocatorState::Asking(_) => 3,
        LocatorState::Listening(_) => 2,
        LocatorState::Reopening(_) => 1,
        _ => 0,
    }
}

/// Whether `next` is closer to the end of the search than `s`: fewer
/// patterns left, or as many and the listing behind it, or the same listing
/// and fewer resources left, or the same resource and fewer probe steps left.
pub open spec fn closer_to_end(next: LocatorState, s: LocatorState) -> bool {
    ||| patterns_left(next) < patterns_left(s)
    ||| (patterns_left(next) == patterns_left(s) && listings_left(next) < listings_left(s))
    ||| (patterns_left(next) == patterns_left(s) && listings_left(next) == listings_left(s)
        && candidates_left(next) < candidates_left(s))
    ||| (patterns_left(next) == patterns_left(s) && listings_left(next) == listings_left(s)
        && candidates_left(next) == candidates_left(s) && probe_steps_left(next)
        < probe_steps_left(s))
}

/// The search always ends: whatever happens on the transport, every step
/// brings a search that has not ended closer to its end.
pub proof fn lemma_step_makes_progress(s: LocatorState, e: EventView)
    requires
        s.well_formed(),
        !s.finished(),
    ensures
        closer_to_end(locator_step(s, e), s),
{
}

/// The state in which a search ends that is in state `s` on `bench`.
pub open spec fn run(s: LocatorState, bench: Bench) -> LocatorState
    decreases patterns_left(s), listings_left(s), candidates_left(s), probe_steps_left(s),
{
    if s.finished() || !s.well_formed() {
        s
    } else {
        run(locator_step(s, event_for(s, bench)), bench)
    }
}

/// The first resource at or behind `from` in the listing of `pattern` that
/// the bench lets pass the probe.
pub open spec fn first_accepted(list: Seq<Seq<u8>>, pattern: nat, from: nat, bench: Bench) -> Option<
    nat,
>
    decreases list.len() - from,
{
    if from >= list.len() {
        None
    } else if (bench.trial)(pattern, from).accepted() {
        Some(from)
    } else {
        first_accepted(list, pattern, from + 1, bench)
    }
}

/// What a search comes to that starts at `pattern`: the first accepted
/// resource of the first pattern, from there on, whose listing holds one, and
/// no device where no pattern is left.
pub open spec fn search_from(pattern: nat, bench: Bench) -> LocatorState
    decreases PATTERN_COUNT - pattern,
{
    if pattern >= PATTERN_COUNT {
        LocatorState::Failed(ErrorKind::DeviceNotFound)
    } else {
        match (bench.listing)(pattern) {
            Some(list) => match first_accepted(list, pattern, 0, bench) {
                Some(i) => LocatorState::Found(list[i as int]),
                None => search_from(pattern + 1, bench),
            },
            None => search_from(pattern + 1, bench),
        }
    }
}

/// What the rest of a listing comes to, from the resource in hand on.
pub open spec fn search_in_listing(probe: Probe, bench: Bench) -> LocatorState {
    match first_accepted(probe.candidates, probe.pattern, probe.index, bench) {
        Some(i) => LocatorState::Found(probe.candidates[i as int]),
        None => search_from(probe.pattern + 1, bench),
    }
}

/// A search that is about to list a pattern, or to open a resource for
/// probing, ends as the ordered search over the bench says.
pub proof fn lemma_run_follows_search(s: LocatorState, bench: Bench)
    requires
        s.well_formed(),
        s is Listing || s is Opening,
    ensures
        s is Listing ==> run(s, bench) == search_from(s->Listing_0, bench),
        s is Opening ==> run(s, bench) == search_in_listing(s->Opening_0, bench),
    decreases patterns_left(s), listings_left(s), candidates_left(s),
{
    reveal_with_fuel(run, 6);
    match s {
        LocatorState::Listing(pattern) => {
            let next = locator_step(s, event_for(s, bench));
            assert(run(s, bench) == run(next, bench));
            let listing = (bench.listing)(pattern);
            if listing is Some && listing->Some_0.len() > 0 {
                let probe = Probe { pattern, candidates: listing->Some_0, index: 0 };
                assert(next == LocatorState::Opening(probe));
                lemma_run_follows_search(next, bench);
            } else {
                assert(next == after_pattern(pattern));
                if listing is Some {
                    assert(first_accepted(listing->Some_0, pattern, 0, bench) is None);
                }
                assert(search_from(pattern, bench) == search_from(pattern + 1, bench));
                if pattern + 1 < PATTERN_COUNT {
                    lemma_run_follows_search(next, bench);
                } else {
                    assert(run(next, bench) == next);
                    assert(search_from(pattern + 1, bench) == next);
                }
            }
        },
        LocatorState::Opening(probe) => {
            let trial = (bench.trial)(probe.pattern, probe.index);
            let s1 = locator_step(s, event_for(s, bench));
            if trial.accepted() {
                let s2 = locator_step(s1, event_for(s1, bench));
                let s3 = locator_step(s2, event_for(s2, bench));
                let s4 = locator_step(s3, event_for(s3, bench));
                assert(s1 == LocatorState::Asking(probe));
                assert(s2 == LocatorState::Listening(probe));
                assert(s3 == LocatorState::Reopening(probe));
                assert(s4 == LocatorState::Found(probe.resource()));
                assert(run(s4, bench) == s4);
                assert(run(s3, bench) == s4);
                assert(run(s2, bench) == s4);
                assert(run(s1, bench) == s4);
                assert(run(s, bench) == s4);
                assert(first_accepted(probe.candidates, probe.pattern, probe.index, bench) == Some(
                    probe.index,
                ));
            } else {
                let skipped = after_candidate(probe);
                lemma_rejected_probe_is_skipped(probe, bench);
                assert(run(s, bench) == run(skipped, bench));
                assert(first_accepted(probe.candidates, probe.pattern, probe.index, bench)
                    == first_accepted(probe.candidates, probe.pattern, probe.index + 1, bench));
                if probe.index + 1 < probe.candidates.len() {
                    let following = Probe { index: probe.index + 1, ..probe };
                    assert(skipped == LocatorState::Opening(following));
                    lemma_run_follows_search(skipped, bench);
                    assert(run(skipped, bench) == search_in_listing(following, bench));
                } else {
                    assert(first_accepted(probe.candidates, probe.pattern, probe.index + 1, bench)
                        is None);
                    assert(skipped == after_pattern(probe.pattern));
                    if probe.pattern + 1 < PATTERN_COUNT {
                        lemma_run_follows_search(skipped, bench);
                    } else {
                        assert(run(skipped, bench) == skipped);
                        assert(search_from(probe.pattern + 1, bench) == skipped);
                    }
                }
            }
        },
        _ => {},
    }
}

/// A probe that the bench does not let pass ends where the search goes on
/// behind the resource.
proof fn lemma_rejected_probe_is_skipped(probe: Probe, bench: Bench)
    requires
        probe.well_formed(),
        !(bench.trial)(probe.pattern, probe.index).accepted(),
    ensures
        run(LocatorState::Opening(probe), bench) == run(after_candidate(probe), bench),
{
    reveal_with_fuel(run, 6);
    let trial = (bench.trial)(probe.pattern, probe.index);
    let s0 = LocatorState::Opening(probe);
    let s1 = locator_step(s0, event_for(s0, bench));
    if trial.opens {
        let s2 = locator_step(s1, event_for(s1, bench));
        assert(s1 == LocatorState::Asking(probe));
        if trial.writes {
            let s3 = locator_step(s2, event_for(s2, bench));
            assert(s2 == LocatorState::Listening(probe));
            if trial.answer is Some && contains(trial.answer->Some_0, vendor_tag()) {
                let s4 = locator_step(s3, event_for(s3, bench));
                assert(s3 == LocatorState::Reopening(probe));
                assert(s4 == after_candidate(probe));
                assert(run(s3, bench) == run(s4, bench));
                assert(run(s2, bench) == run(s3, bench));
            } else {
                assert(s3 == after_candidate(probe));
                assert(run(s2, bench) == run(s3, bench));
            }
            assert(run(s1, bench) == run(s2, bench));
        } else {
            assert(s2 == after_candidate(probe));
            assert(run(s1, bench) == run(s2, bench));
        }
        assert(run(s0, bench) == run(s1, bench));
    } else {
        assert(s1 == after_candidate(probe));
        assert(run(s0, bench) == run(s1, bench));
    }
}

/// Discovery finds the first match: it ends with the first resource, in the
/// order of the patterns and of each listing, that opens, takes the query,
/// answers with a line that holds the vendor's name, and opens again; and
/// it ends without a device exactly where no listed resource does all that.
pub proof fn lemma_discovery_finds_first_match(bench: Bench)
    ensures
        run(LocatorState::Listing(0), bench) == search_from(0, bench),
{
    lemma_run_follows_search(LocatorState::Listing(0), bench);
}

/// With a given host the one open decides: the search ends with the host's
/// resource where it opens, and in a transport error where it does not.
pub proof fn lemma_direct_goes_by_the_open(resource: Seq<u8>, bench: Bench)
    ensures
        bench.host_opens ==> run(LocatorState::Direct(resource), bench) == LocatorState::Found(
            resource,
        ),
        !bench.host_opens ==> run(LocatorState::Direct(resource), bench) == LocatorState::Failed(
            ErrorKind::Transport,
        ),
{
    reveal_with_fuel(run, 3);
}

} // verus!
