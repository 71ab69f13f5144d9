//! Choice of the local UDP port of a session: the lowest port of the
//! configured range that can be bound.
//!
//! The scan is first-fit and ascending. It starts at the low end of the
//! range on every call, tries each port at most once, and stops at the
//! first port that binds or after the high end.

use vstd::prelude::*;
use crate::error::SessionError;

verus! {

/// The local ports that a session may bind, `low` and `high` included, and
/// the host on which it binds them.
pub struct PortRange {
    /// Local host to bind on.
    pub host: String,
    /// Lowest port to try.
    pub low: u16,
    /// Highest port to try.
    pub high: u16,
}

/// Where a scan stands: the port to try next, or no port left.
#[derive(Clone, Copy, Debug, PartialEq, Eq, Structural)]
pub enum Candidate {
    /// Try to bind this port.
    Try(u16),
    /// Every port of the range was tried and none could be bound.
    Exhausted,
}

impl PortRange {
    /// The range holds at least one port.
    pub open spec fn wf(&self) -> bool {
        self.low <= self.high
    }

    /// `port` lies in the range.
    pub open spec fn contains(&self, port: u16) -> bool {
        self.low <= port <= self.high
    }

    /// Where a scan starts: at the low end, if the range has one.
    pub open spec fn first(&self) -> Candidate {
        if self.low <= self.high {
            Candidate::Try(self.low)
        } else {
            Candidate::Exhausted
        }
    }

    /// Where a scan goes on after `failed` could not be bound: at the next
    /// port up, unless `failed` was the high end.
    pub open spec fn after(&self, failed: u16) -> Candidate {
        if self.low <= failed < self.high {
            Candidate::Try((failed + 1) as u16)
        } else {
            Candidate::Exhausted
        }
    }

    /// How many ports a scan standing at `at` may still try.
    pub open spec fn remaining(&self, at: Candidate) -> nat {
        match at {
            Candidate::Try(port) if self.contains(port) => (self.high - port + 1) as nat,
            _ => 0,
        }
    }

    /// The range from `low` to `high`, or `None` where `low` is above
    /// `high`.
    pub fn new(host: String, low: u16, high: u16) -> (r: Option<PortRange>)
        ensures
            r.is_some() <==> low <= high,
            r matches Some(range) ==> range.wf() && range.host == host && range.low == low
                && range.high == high,
    {
        if low <= high {
            Some(PortRange { host, low, high })
        } else {
            None
        }
    }

    /// The first port to try.
    pub fn first_candidate(&self) -> (at: Candidate)
        ensures
            at == self.first(),
    {
        if self.low <= self.high {
            Candidate::Try(self.low)
        } else {
            Candidate::Exhausted
        }
    }

    /// The port to try after `failed` could not be bound.
    pub fn next_candidate(&self, failed: u16) -> (at: Candidate)
        ensures
            at == self.after(failed),
    {
        if self.low <= failed && failed < self.high {
            Candidate::Try(failed + 1)
        } else {
            Candidate::Exhausted
        }
    }
}

/// What `acquire` may return for `range` and `bind`.
///
/// `Ok` carries a port of the range and the socket that `bind` gave for it,
/// and `bind` gave none for any lower port of the range. `Err` is
/// `PortExhausted`, and `bind` gave no socket for any port of the range.
pub open spec fn acquired<S, F: Fn(u16) -> Option<S>>(
    range: PortRange,
    bind: F,
    r: Result<(u16, S), SessionError>,
) -> bool {
    match r {
        Ok((port, socket)) => {
            &&& range.contains(port)
            &&& bind.ensures((port,), Some(socket))
            &&& forall|q: u16| range.low <= q < port ==> #[trigger] bind.ensures((q,), None::<S>)
        },
        Err(e) => {
            &&& e == SessionError::PortExhausted
            &&& forall|q: u16| range.contains(q) ==> #[trigger] bind.ensures((q,), None::<S>)
        },
    }
}

/// Binds the lowest port of `range` that `bind` can take.
///
/// `bind` is asked for the candidates of the range in turn, from
/// [`PortRange::first_candidate`] on, until it hands out a socket. If no
/// port of the range gives one the result is `PortExhausted`.
pub fn acquire<S, F: Fn(u16) -> Option<S>>(range: &PortRange, bind: F) -> (r: Result<
    (u16, S),
    SessionError,
>)
    requires
        forall|p: u16| range.contains(p) ==> #[trigger] bind.requires((p,)),
    ensures
        acquired(*range, bind, r),
{
    let mut at = range.first_candidate();
    loop
        invariant
            forall|p: u16| range.contains(p) ==> #[trigger] bind.requires((p,)),
            at matches Candidate::Try(p) ==> range.contains(p),
            forall|q: u16|
                range.contains(q) && (at matches Candidate::Try(p) ==> q < p)
                    ==> #[trigger] bind.ensures((q,), None::<S>),
        decreases range.remaining(at),
    {
        match at {
            Candidate::Exhausted => {
                return Err(SessionError::PortExhausted);
            },
            Candidate::Try(port) => {
                match bind(port) {
                    Some(socket) => {
                        return Ok((port, socket));
                    },
                    None => {
                        at = range.next_candidate(port);
                    },
                }
            },
        }
    }
}

/// `bind` hands out a socket on the ports in `free` and on no other.
pub open spec fn binds_exactly<S, F: Fn(u16) -> Option<S>>(bind: F, free: Set<u16>) -> bool {
    forall|p: u16, o: Option<S>| #[trigger]
        bind.ensures((p,), o) ==> (o.is_some() <==> free.contains(p))
}

/// `port` is the lowest port of `range` in `free`.
pub open spec fn lowest_free(range: PortRange, free: Set<u16>, port: u16) -> bool {
    &&& range.contains(port)
    &&& free.contains(port)
    &&& forall|q: u16| range.low <= q < port ==> !free.contains(q)
}

/// The course of a scan: the ports it tried, in order, and the port it
/// bound, if any.
pub struct Scan {
    /// Every port that was tried, first to last.
    pub tried: Seq<u16>,
    /// The port that was bound.
    pub bound: Option<u16>,
}

/// The course of a scan of `range` that stands at `at`, when the ports in
/// `free`, and no others, can be bound.
pub open spec fn scan(range: PortRange, free: Set<u16>, at: Candidate) -> Scan
    decreases range.remaining(at),
{
    match at {
        Candidate::Try(port) if range.contains(port) => {
            if free.contains(port) {
                Scan { tried: seq![port], bound: Some(port) }
            } else {
                let rest = scan(range, free, range.after(port));
                Scan { tried: seq![port] + rest.tried, bound: rest.bound }
            }
        },
        _ => Scan { tried: Seq::empty(), bound: None },
    }
}

/// The `n` ports from `low` upwards, in ascending order.
pub open spec fn ports_from(low: u16, n: nat) -> Seq<u16> {
    Seq::new(n, |i: int| (low + i) as u16)
}

proof fn lemma_scan_from(range: PortRange, free: Set<u16>, port: u16)
    requires
        range.contains(port),
    ensures
        ({
            let s = scan(range, free, Candidate::Try(port));
            match s.bound {
                Some(b) => {
                    &&& port <= b <= range.high
                    &&& free.contains(b)
                    &&& forall|q: u16| port <= q < b ==> !free.contains(q)
                    &&& s.tried == ports_from(port, (b - port + 1) as nat)
                },
                None => {
                    &&& forall|q: u16| port <= q <= range.high ==> !free.contains(q)
                    &&& s.tried == ports_from(port, (range.high - port + 1) as nat)
                },
            }
        }),
    decreases range.high - port,
{
    let s = scan(range, free, Candidate::Try(port));
    if free.contains(port) {
        assert(s.tried =~= ports_from(port, 1));
    } else if port < range.high {
        let next = (port + 1) as u16;
        lemma_scan_from(range, free, next);
        let rest = scan(range, free, Candidate::Try(next));
        assert(s.tried == seq![port] + rest.tried);
        match rest.bound {
            Some(b) => {
                assert(s.tried =~= ports_from(port, (b - port + 1) as nat));
            },
            None => {
                assert(s.tried =~= ports_from(port, (range.high - port + 1) as nat));
            },
        }
    } else {
        assert(scan(range, free, Candidate::Exhausted).tried =~= Seq::<u16>::empty());
        assert(s.tried =~= ports_from(port, 1));
    }
}

/// Where the range holds a free port, a scan binds the lowest free port
/// of the range. It tries the ports from the low end up to that port, each
/// once and in ascending order, and no port after it.
pub proof fn lemma_scan_takes_lowest_free(range: PortRange, free: Set<u16>)
    requires
        exists|p: u16| range.contains(p) && free.contains(p),
    ensures
        scan(range, free, range.first()).bound matches Some(port) && lowest_free(range, free, port)
            && scan(range, free, range.first()).tried == ports_from(
            range.low,
            (port - range.low + 1) as nat,
        ),
{
    lemma_scan_from(range, free, range.low);
}

/// Where every port of the range is taken, a scan binds nothing. It tries
/// every port of the range, each once and in ascending order.
pub proof fn lemma_scan_exhausted(range: PortRange, free: Set<u16>)
    requires
        forall|p: u16| range.contains(p) ==> !free.contains(p),
    ensures
        scan(range, free, range.first()).bound is None,
        range.wf() ==> scan(range, free, range.first()).tried == ports_from(
            range.low,
            (range.high - range.low + 1) as nat,
        ),
        !range.wf() ==> scan(range, free, range.first()).tried == Seq::<u16>::empty(),
{
    if range.wf() {
        lemma_scan_from(range, free, range.low);
    }
}

/// `acquire` ends as the scan does: with the port that the scan binds, or
/// with `PortExhausted` where the scan binds none.
pub proof fn lemma_acquire_follows_scan<S, F: Fn(u16) -> Option<S>>(
    range: PortRange,
    bind: F,
    free: Set<u16>,
    r: Result<(u16, S), SessionError>,
)
    requires
        acquired(range, bind, r),
        binds_exactly(bind, free),
    ensures
        match r {
            Ok((port, _)) => scan(range, free, range.first()).bound == Some(port),
            Err(e) => e == SessionError::PortExhausted && scan(range, free, range.first()).bound
                is None,
        },
{
    if range.wf() {
        lemma_scan_from(range, free, range.low);
    }
    match (r, scan(range, free, range.first()).bound) {
        (Ok((port, socket)), Some(b)) => {
            assert(bind.ensures((port,), Some(socket)));
            if b < port {
                assert(bind.ensures((b,), None::<S>));
            }
        },
        (Ok((port, socket)), None) => {
            assert(bind.ensures((port,), Some(socket)));
        },
        (Err(_), Some(b)) => {
            assert(bind.ensures((b,), None::<S>));
        },
        (Err(_), None) => {},
    }
}

} // verus!
