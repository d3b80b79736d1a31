//! Names shown for the SSRCs that RTCP packets mention.
use vstd::prelude::*;
use crate::streams::{alias_in, ssrc_string, ssrc_text, AliasCache};

verus! {

/// Remembers the alias given to every SSRC shown in the RTCP table.
pub struct StreamAliasHelper {
    cache: AliasCache,
}

impl StreamAliasHelper {
    /// The SSRCs named so far, in the order they were first named.
    pub closed spec fn seen(&self) -> Seq<u32> {
        self.cache.seen()
    }

    pub closed spec fn wf(&self) -> bool {
        self.cache.wf()
    }

    /// A helper that has named nothing yet.
    pub fn new() -> (h: StreamAliasHelper)
        ensures
            h.wf(),
            h.seen() == Seq::<u32>::empty(),
    {
        StreamAliasHelper { cache: AliasCache::new() }
    }

    /// The alias of `ssrc`.  An SSRC asked about for the first time gets the
    /// next unused name, and keeps it.
    pub fn get_alias(&mut self, ssrc: u32) -> (r: String)
        requires
            old(self).wf(),
        ensures
            final(self).wf(),
            final(self).seen() == (if old(self).seen().contains(ssrc) {
                old(self).seen()
            } else {
                old(self).seen().push(ssrc)
            }),
            r@ == alias_in(final(self).seen(), ssrc),
    {
        self.cache.alias(ssrc)
    }

    /// The SSRC in hexadecimal followed by its alias.
    pub fn print_ssrc(&mut self, ssrc: u32) -> (r: String)
        requires
            old(self).wf(),
        ensures
            final(self).wf(),
            final(self).seen() == (if old(self).seen().contains(ssrc) {
                old(self).seen()
            } else {
                old(self).seen().push(ssrc)
            }),
            r@ == ssrc_text(ssrc, alias_in(final(self).seen(), ssrc)),
    {
        let alias = self.get_alias(ssrc);
        ssrc_string(ssrc, &alias)
    }
}

impl Default for StreamAliasHelper {
    fn default() -> (h: StreamAliasHelper)
        ensures
            h.wf(),
            h.seen() == Seq::<u32>::empty(),
    {
        StreamAliasHelper::new()
    }
}

} // verus!
