//! Our own keystrokes coming back. Remappers proxy them through a keyboard
//! of their own, so nothing on the event tells them from the user's: each
//! press that went out is expected back once, for a while.

use vstd::prelude::*;
use vstd::seq_lib::*;

use crate::engine::consts::ECHO_EXPIRY;
use crate::engine::switcher::SwitcherEngine;
use crate::keys::{KeyDirection, KeyEvent};
use crate::time::{Duration, Instant};

verus! {

/// A press that went out, and how long it may take to come back.
#[derive(Clone, Copy, PartialEq, Eq, Structural, Debug)]
pub struct Echo {
    pub scancode: u32,
    pub until: Instant,
}

/// The echoes that may still come, oldest first.
pub open spec fn live_echoes(q: Seq<Echo>, now: Instant) -> Seq<Echo> {
    q.filter(|e: Echo| now.nanos < e.until.nanos)
}

/// The first echo of that key.
pub open spec fn is_first_echo(q: Seq<Echo>, scancode: u32, i: int) -> bool {
    &&& 0 <= i < q.len()
    &&& q[i].scancode == scancode
    &&& forall|j: int| 0 <= j < i ==> (#[trigger] q[j]).scancode != scancode
}

/// An echo of that key may still come.
pub open spec fn is_expected(q: Seq<Echo>, scancode: u32) -> bool {
    exists|i: int| 0 <= i < q.len() && (#[trigger] q[i]).scancode == scancode
}

/// How many echoes of that key are expected.
pub open spec fn echo_count(q: Seq<Echo>, scancode: u32) -> nat {
    q.map_values(|e: Echo| e.scancode).to_multiset().count(scancode)
}

impl SwitcherEngine {
    /// Expect the presses that just went out back.
    pub fn push_echoes(&mut self, scancodes: &Vec<u32>, now: Instant)
        requires
            now.nanos + ECHO_EXPIRY <= u128::MAX,
        ensures
            final(self).expected_echo@ == old(self).expected_echo@ + scancodes@.map_values(
                |sc: u32|
                    Echo {
                        scancode: sc,
                        until: Instant { nanos: (now.nanos + ECHO_EXPIRY) as u128 },
                    },
            ),
            *final(self) == (SwitcherEngine {
                expected_echo: final(self).expected_echo,
                ..*old(self)
            }),
    {
        let until = now.plus(Duration { nanos: ECHO_EXPIRY });
        let ghost f = |sc: u32| Echo { scancode: sc, until };
        let ghost before = self.expected_echo@;
        let mut i: usize = 0;
        assert(scancodes@.take(0).map_values(f) =~= Seq::empty());
        assert(before + Seq::<Echo>::empty() =~= before);
        while i < scancodes.len()
            invariant
                i <= scancodes.len(),
                f == (|sc: u32| Echo { scancode: sc, until }),
                self.expected_echo@ == before + scancodes@.take(i as int).map_values(f),
                *self == (SwitcherEngine { expected_echo: self.expected_echo, ..*old(self) }),
            decreases scancodes.len() - i,
        {
            self.expected_echo.push(Echo { scancode: scancodes[i], until });
            i += 1;
            assert(self.expected_echo@ =~= before + scancodes@.take(i as int).map_values(f));
        }
        assert(scancodes@.take(scancodes@.len() as int) =~= scancodes@);
    }

    /// Whether an echo may still come. Those that are overdue are given up.
    pub fn echo_pending(&mut self, now: Instant) -> (b: bool)
        ensures
            final(self).expected_echo@ == live_echoes(old(self).expected_echo@, now),
            b == (final(self).expected_echo@.len() > 0),
            *final(self) == (SwitcherEngine {
                expected_echo: final(self).expected_echo,
                ..*old(self)
            }),
    {
        let ghost keep = |e: Echo| now.nanos < e.until.nanos;
        let mut live: Vec<Echo> = Vec::new();
        let mut i: usize = 0;
        proof {
            reveal(Seq::filter);
            assert(live@ =~= self.expected_echo@.take(0).filter(keep));
        }
        while i < self.expected_echo.len()
            invariant
                i <= self.expected_echo.len(),
                *self == *old(self),
                keep == (|e: Echo| now.nanos < e.until.nanos),
                live@ == self.expected_echo@.take(i as int).filter(keep),
            decreases self.expected_echo.len() - i,
        {
            let e = self.expected_echo[i];
            proof {
                reveal(Seq::filter);
                assert(self.expected_echo@.take(i + 1).drop_last() =~= self.expected_echo@.take(
                    i as int,
                ));
            }
            if now.nanos < e.until.nanos {
                live.push(e);
            }
            i += 1;
        }
        assert(self.expected_echo@.take(i as int) =~= self.expected_echo@);
        self.expected_echo = live;
        self.expected_echo.len() > 0
    }

    /// Whether this is one of our own presses coming back; if it is, it is
    /// no longer expected. Releases are nobody's echo.
    pub fn consume_echo(&mut self, ev: &KeyEvent, now: Instant) -> (ours: bool)
        ensures
            ({
                let live = live_echoes(old(self).expected_echo@, now);
                let after = final(self).expected_echo@;
                if ev.direction != KeyDirection::Press {
                    !ours && *final(self) == *old(self)
                } else {
                    &&& ours == is_expected(live, ev.scancode)
                    &&& !ours ==> after == live
                    &&& ours ==> exists|i: int| #[trigger]
                        is_first_echo(live, ev.scancode, i) && after == live.remove(i)
                    &&& *final(self) == (SwitcherEngine {
                        expected_echo: final(self).expected_echo,
                        ..*old(self)
                    })
                }
            }),
    {
        if ev.direction != KeyDirection::Press {
            return false;
        }
        let _ = self.echo_pending(now);
        let ghost live = self.expected_echo@;
        let ghost base = *self;
        let mut i: usize = 0;
        while i < self.expected_echo.len()
            invariant
                i <= self.expected_echo.len(),
                *self == base,
                live == base.expected_echo@,
                live == live_echoes(old(self).expected_echo@, now),
                base == (SwitcherEngine { expected_echo: base.expected_echo, ..*old(self) }),
                ev.direction == KeyDirection::Press,
                forall|j: int| 0 <= j < i ==> (#[trigger] live[j]).scancode != ev.scancode,
            decreases self.expected_echo.len() - i,
        {
            if self.expected_echo[i].scancode == ev.scancode {
                let _ = self.expected_echo.remove(i);
                proof {
                    assert(live[i as int].scancode == ev.scancode);
                    assert(is_first_echo(live, ev.scancode, i as int));
                    assert(self.expected_echo@ == live.remove(i as int));
                }
                return true;
            }
            i += 1;
        }
        false
    }
}

/// An echo is swallowed once: each takes one expectation of its own key
/// along and none of another, so the press after the last one is the user's.
pub proof fn law_an_echo_is_swallowed_once(live: Seq<Echo>, scancode: u32, i: int, other: u32)
    requires
        is_first_echo(live, scancode, i),
    ensures
        echo_count(live.remove(i), scancode) + 1 == echo_count(live, scancode),
        other != scancode ==> echo_count(live.remove(i), other) == echo_count(live, other),
        echo_count(live.remove(i), scancode) == 0 ==> !is_expected(live.remove(i), scancode),
{
    let f = |e: Echo| e.scancode;
    let all = live.map_values(f);
    let rest = live.remove(i);
    assert(rest.map_values(f) =~= all.remove(i));
    to_multiset_remove(all, i);
    assert(all[i] == scancode);
    all.to_multiset_ensures();
    rest.map_values(f).to_multiset_ensures();
    assert(all.contains(scancode));
    if is_expected(rest, scancode) {
        let k = choose|k: int| 0 <= k < rest.len() && (#[trigger] rest[k]).scancode == scancode;
        assert(rest.map_values(f)[k] == scancode);
        assert(rest.map_values(f).contains(scancode));
    }
}

} // verus!
