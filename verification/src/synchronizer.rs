use vstd::prelude::*;

use crate::bytes::copy_bytes;
use crate::config::{Config, Link};

verus! {

/// One replication request as the synchronizer issues it: a configured
/// pair's raw paths, with backups always enabled.
#[derive(Debug, PartialEq, Eq)]
pub struct Request {
    pub source: Vec<u8>,
    pub destination: Vec<u8>,
    pub backup: bool,
}

/// The batch synchronizer: hands out the configured pairs strictly in
/// order, each as a request with backups enabled, and stops at the first
/// recorded failure. Nothing already done is rolled back; the machine offers
/// no operation that could.
#[derive(Debug, PartialEq, Eq)]
pub struct Synchronizer {
    pub links: Vec<Link>,
    pub next: usize,
    pub failed: bool,
}

impl Synchronizer {
    /// The request the synchronizer hands out next, as (source,
    /// destination): the first pair not yet done, unless a failure already
    /// stopped the batch or none remain.
    pub open spec fn spec_next_request(&self) -> Option<(Seq<u8>, Seq<u8>)> {
        if self.failed || self.next >= self.links@.len() {
            None
        } else {
            Some(
                (
                    self.links@[self.next as int].source@,
                    self.links@[self.next as int].destination@,
                ),
            )
        }
    }

    /// Every pair was replicated and none failed.
    pub open spec fn spec_done(&self) -> bool {
        !self.failed && self.next == self.links@.len()
    }

    /// The next request to perform, if any. Every request carries
    /// `backup == true`: batch synchronization never overwrites without a
    /// backup.
    pub fn next_request(&self) -> (r: Option<Request>)
        ensures
            r is Some <==> self.spec_next_request() is Some,
            r matches Some(req) ==> (self.spec_next_request() matches Some(pair) && {
                &&& req.source@ == pair.0
                &&& req.destination@ == pair.1
                &&& req.backup == true
            }),
    {
        if self.failed || self.next >= self.links.len() {
            None
        } else {
            let link = &self.links[self.next];
            Some(
                Request {
                    source: copy_bytes(&link.source),
                    destination: copy_bytes(&link.destination),
                    backup: true,
                },
            )
        }
    }

    /// Records how the request handed out last fared: a success moves on to
    /// the next pair, a failure stops the batch where it stands.
    pub fn record(&mut self, ok: bool)
        requires
            !old(self).failed,
            old(self).next < old(self).links@.len(),
        ensures
            final(self).links == old(self).links,
            ok ==> !final(self).failed && final(self).next == old(self).next + 1,
            !ok ==> final(self).failed && final(self).next == old(self).next,
    {
        if ok {
            let n = self.links.len();
            assert(self.next < n);
            self.next = self.next + 1;
        } else {
            self.failed = true;
        }
    }

    /// Whether a failure has stopped the batch.
    pub fn has_failed(&self) -> (r: bool)
        ensures
            r == self.failed,
    {
        self.failed
    }

    /// Whether every pair was replicated without failure.
    pub fn is_done(&self) -> (r: bool)
        ensures
            r == self.spec_done(),
    {
        !self.failed && self.next == self.links.len()
    }
}

/// Starts a batch synchronization over the configured pairs: the pairs are
/// taken in the order given, each to be replicated with backups enabled.
pub fn sync(config: Config) -> (s: Synchronizer)
    ensures
        s.links == config.links_to_do,
        s.next == 0,
        !s.failed,
{
    Synchronizer { links: config.links_to_do, next: 0, failed: false }
}

/// Batch partial application: replication is fail-fast across a batch. Once
/// a request's failure is recorded the synchronizer hands out no further
/// request, so pairs after the failed one are never replicated, while the
/// pairs before it were already done and stay done — the machine offers no
/// operation that rolls one back.
pub proof fn lemma_batch_partial_application(s: Synchronizer)
    requires
        s.failed,
    ensures
        s.spec_next_request() is None,
        !s.spec_done(),
{
}

} // verus!
