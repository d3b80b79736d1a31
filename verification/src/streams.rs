//! Names given to streams.
//!
//! Streams are told apart in the tables by short upper-case aliases.  Two
//! letterings are used:
//!
//! - `int_to_letter` writes a stream number in base 26 with the digits
//!   `A`..`Z` (`A`, `B`, ..., `Z`, `BA`, `BB`, ...);
//! - `StreamAliasHelper` hands every SSRC, in the order it is first asked
//!   about, the next name of the sequence `A`, ..., `Z`, `AA`, `AB`, ...,
//!   `ZZ`, `AAA`, ... (bijective base 26), and remembers it.
use vstd::prelude::*;
use std::collections::HashMap;
use crate::text::{hex, hex_chars, push_char, string_from_chars};

pub mod mpegts_stream;
pub mod stream_statistics;

verus! {

broadcast use vstd::std_specs::hash::group_hash_axioms;

/// The upper-case letter of a base-26 digit.
pub open spec fn letter(d: nat) -> char {
    ((65 + d) as u8) as char
}

/// `n` in base 26 with the digits `A`..`Z`, most significant first.
pub open spec fn base26_letters(n: nat) -> Seq<char>
    decreases n,
{
    if n < 26 {
        seq![letter(n)]
    } else {
        base26_letters(n / 26).push(letter(n % 26))
    }
}

/// The `index`-th name of the sequence `A`, ..., `Z`, `AA`, ..., `ZZ`, `AAA`, ...
pub open spec fn alias_letters(index: nat) -> Seq<char>
    decreases index,
{
    if index < 26 {
        seq![letter(index)]
    } else {
        alias_letters((index / 26 - 1) as nat).push(letter(index % 26))
    }
}

/// The name given to `ssrc` when the SSRCs were first seen in the order `seen`.
pub open spec fn alias_in(seen: Seq<u32>, ssrc: u32) -> Seq<char> {
    alias_letters(seen.index_of(ssrc) as nat)
}

/// The text written for an SSRC: its hexadecimal value and its alias.
pub open spec fn ssrc_text(ssrc: u32, alias: Seq<char>) -> Seq<char> {
    hex(ssrc as nat) + " | alias: "@ + alias
}

/// Writes `unique_id` in base 26 with the digits `A`..`Z`.
pub fn int_to_letter(unique_id: usize) -> (r: String)
    ensures
        r@ == base26_letters(unique_id as nat),
{
    if unique_id == 0 {
        let mut s = String::new();
        push_char(&mut s, 'A');
        assert(s@ =~= seq![letter(0)]);
        return s;
    }
    let mut result: Vec<char> = Vec::new();
    let mut remaining = unique_id;
    while remaining > 0
        invariant
            remaining > 0 ==> base26_letters(unique_id as nat) == base26_letters(remaining as nat)
                + result@,
            remaining == 0 ==> base26_letters(unique_id as nat) == result@,
        decreases remaining,
    {
        let current = (remaining % 26) as u8;
        let c = (65u8 + current) as char;
        let ghost before = result@;
        result.insert(0, c);
        assert(result@ =~= seq![c] + before);
        if remaining >= 26 {
            assert(base26_letters(remaining as nat) == base26_letters((remaining / 26) as nat).push(
                c,
            ));
            assert(base26_letters((remaining / 26) as nat).push(c) + before =~= base26_letters(
                (remaining / 26) as nat,
            ) + result@);
        } else {
            assert(base26_letters(remaining as nat) =~= seq![c]);
        }
        remaining = remaining / 26;
    }
    string_from_chars(&result)
}

/// The characters of the `index`-th alias.
fn alias_chars(index: u32) -> (v: Vec<char>)
    ensures
        v@ == alias_letters(index as nat),
    decreases index,
{
    let c = (65u8 + (index % 26) as u8) as char;
    if index < 26 {
        let mut v: Vec<char> = Vec::new();
        v.push(c);
        assert(v@ =~= seq![letter(index as nat)]);
        v
    } else {
        let mut v = alias_chars(index / 26 - 1);
        v.push(c);
        v
    }
}

/// The remembered aliases: the SSRCs in the order they were first named,
/// and the name of each.
pub struct AliasCache {
    cache: HashMap<u32, String>,
    seen: Ghost<Seq<u32>>,
}

impl AliasCache {
    /// The SSRCs named so far, in the order they were first named.
    pub closed spec fn seen(&self) -> Seq<u32> {
        self.seen@
    }

    /// Every SSRC seen once, each named after its position.
    pub closed spec fn wf(&self) -> bool {
        &&& self.seen@.no_duplicates()
        &&& forall|k: u32| #[trigger] self.cache@.contains_key(k) <==> self.seen@.contains(k)
        &&& forall|i: int|
            0 <= i < self.seen@.len() ==> (#[trigger] self.cache@[self.seen@[i]])@
                == alias_letters(i as nat)
        &&& self.cache@.len() == self.seen@.len()
    }

    /// The SSRCs seen are each seen once.
    pub proof fn lemma_seen_unique(&self)
        requires
            self.wf(),
        ensures
            self.seen().no_duplicates(),
    {
    }

    /// A cache that has named nothing yet.
    pub fn new() -> (c: AliasCache)
        ensures
            c.wf(),
            c.seen() == Seq::<u32>::empty(),
    {
        AliasCache { cache: HashMap::new(), seen: Ghost(Seq::empty()) }
    }

    /// The alias of `ssrc`; an SSRC not seen before gets the next name.
    pub fn alias(&mut self, ssrc: u32) -> (r: String)
        requires
            old(self).wf(),
        ensures
            final(self).wf(),
            final(self).seen() == (if old(self).seen().contains(ssrc) {
                old(self).seen()
            } else {
                old(self).seen().push(ssrc)
            }),
            final(self).seen().contains(ssrc),
            r@ == alias_in(final(self).seen(), ssrc),
    {
        if let Some(alias) = self.cache.get(&ssrc) {
            let r = alias.clone();
            proof {
                let i = self.seen@.index_of(ssrc);
                assert(self.seen@[i] == ssrc);
                assert(self.cache@[self.seen@[i]]@ == alias_letters(i as nat));
            }
            return r;
        }
        proof {
            lemma_fewer_than_all_u32(self.cache@.dom(), ssrc);
        }
        let index = self.cache.len() as u32;
        let alias = string_from_chars(&alias_chars(index));
        let ghost old_seen = self.seen@;
        let ghost old_cache = self.cache@;
        self.cache.insert(ssrc, alias.clone());
        proof {
            self.seen@ = old_seen.push(ssrc);
            assert(self.seen@[old_seen.len() as int] == ssrc);
            assert forall|k: u32| #[trigger] self.cache@.contains_key(k) <==> self.seen@.contains(
                k,
            ) by {
                if old_seen.contains(k) {
                    let j = old_seen.index_of(k);
                    assert(self.seen@[j] == k);
                }
                if self.seen@.contains(k) && k != ssrc {
                    let j = self.seen@.index_of(k);
                    assert(old_seen[j] == k);
                }
            }
            assert forall|i: int| 0 <= i < self.seen@.len() implies (
            #[trigger] self.cache@[self.seen@[i]])@ == alias_letters(i as nat) by {
                if i < old_seen.len() {
                    assert(self.seen@[i] == old_seen[i]);
                    assert(old_cache.contains_key(old_seen[i]));
                    assert(old_seen[i] != ssrc);
                    assert(old_cache[old_seen[i]]@ == alias_letters(i as nat));
                }
            }
            assert(self.cache@.dom() =~= old_cache.dom().insert(ssrc));
            assert(self.seen@.index_of(ssrc) == old_seen.len()) by {
                let j = self.seen@.index_of(ssrc);
                if j != old_seen.len() {
                    assert(old_seen[j] == ssrc);
                    assert(old_seen.contains(ssrc));
                    assert(old_cache.contains_key(ssrc));
                }
            }
        }
        alias
    }
}

/// A finite set of `u32` values that misses one of them has fewer than
/// 2^32 elements.
proof fn lemma_fewer_than_all_u32(s: Set<u32>, missing: u32)
    requires
        s.finite(),
        !s.contains(missing),
    ensures
        s.len() < 0x1_0000_0000,
{
    let f = |x: u32| x as int;
    let image = s.map(f);
    assert(vstd::relations::injective_on(f, s));
    vstd::set_lib::lemma_map_size(s, image, f);
    let range = vstd::set_lib::set_int_range(0, 0x1_0000_0000).remove(missing as int);
    vstd::set_lib::lemma_int_range(0, 0x1_0000_0000);
    assert forall|y: int| image.contains(y) implies range.contains(y) by {
        let x = choose|x: u32| s.contains(x) && f(x) == y;
        assert(x != missing);
    }
    vstd::set_lib::lemma_len_subset(image, range);
}

proof fn lemma_alias_letters_len(index: nat)
    ensures
        alias_letters(index).len() >= 1,
        index >= 26 ==> alias_letters(index).len() >= 2,
    decreases index,
{
    if index >= 26 {
        lemma_alias_letters_len((index / 26 - 1) as nat);
    }
}

/// Different positions get different names: the lettering
/// `A`, ..., `Z`, `AA`, ... never repeats a name.
pub proof fn lemma_alias_letters_injective(i: nat, j: nat)
    requires
        alias_letters(i) == alias_letters(j),
    ensures
        i == j,
    decreases i + j,
{
    lemma_alias_letters_len(i);
    lemma_alias_letters_len(j);
    let a = alias_letters(i);
    let b = alias_letters(j);
    if i < 26 && j < 26 {
        assert(a[0] == b[0]);
    } else if i >= 26 && j >= 26 {
        let pi = (i / 26 - 1) as nat;
        let pj = (j / 26 - 1) as nat;
        assert(a.last() == b.last());
        assert(a.drop_last() =~= alias_letters(pi));
        assert(b.drop_last() =~= alias_letters(pj));
        lemma_alias_letters_injective(pi, pj);
    }
}

proof fn lemma_base26_letters_len(n: nat)
    ensures
        base26_letters(n).len() >= 1,
        n >= 26 ==> base26_letters(n).len() >= 2,
        n >= 26 ==> base26_letters(n)[0] != letter(0),
    decreases n,
{
    if n >= 26 {
        lemma_base26_letters_len(n / 26);
        assert(base26_letters(n)[0] == base26_letters(n / 26)[0]);
        if n / 26 < 26 {
            assert(base26_letters(n / 26)[0] == letter(n / 26));
        }
    }
}

/// Different stream numbers are written differently.
pub proof fn lemma_base26_letters_injective(i: nat, j: nat)
    requires
        base26_letters(i) == base26_letters(j),
    ensures
        i == j,
    decreases i + j,
{
    lemma_base26_letters_len(i);
    lemma_base26_letters_len(j);
    let a = base26_letters(i);
    let b = base26_letters(j);
    if i < 26 && j < 26 {
        assert(a[0] == b[0]);
    } else if i >= 26 && j >= 26 {
        assert(a.last() == b.last());
        assert(a.drop_last() =~= base26_letters(i / 26));
        assert(b.drop_last() =~= base26_letters(j / 26));
        lemma_base26_letters_injective(i / 26, j / 26);
    }
}

/// Two different SSRCs seen by a helper carry different aliases.
pub proof fn lemma_aliases_distinct(seen: Seq<u32>, a: u32, b: u32)
    requires
        seen.no_duplicates(),
        seen.contains(a),
        seen.contains(b),
        a != b,
    ensures
        alias_in(seen, a) != alias_in(seen, b),
{
    let i = seen.index_of(a);
    let j = seen.index_of(b);
    assert(seen[i] == a);
    assert(seen[j] == b);
    if alias_in(seen, a) == alias_in(seen, b) {
        lemma_alias_letters_injective(i as nat, j as nat);
    }
}

/// Naming a new SSRC leaves the alias of every SSRC named before unchanged.
pub proof fn lemma_alias_kept(seen: Seq<u32>, named: u32, new_ssrc: u32)
    requires
        seen.no_duplicates(),
        seen.contains(named),
        !seen.contains(new_ssrc),
    ensures
        alias_in(seen.push(new_ssrc), named) == alias_in(seen, named),
{
    let i = seen.index_of(named);
    let longer = seen.push(new_ssrc);
    assert(seen[i] == named);
    assert(longer[i] == named);
    let j = longer.index_of(named);
    assert(longer[j] == named);
    if j != i {
        if j < seen.len() {
            assert(seen[j] == named);
        }
    }
}

/// Remembers the alias of every SSRC and the stream type announced for it.
pub struct StreamAliasHelper {
    aliases: AliasCache,
    meta: HashMap<u32, String>,
}

impl StreamAliasHelper {
    /// The SSRCs named so far, in the order they were first named.
    pub closed spec fn seen(&self) -> Seq<u32> {
        self.aliases.seen()
    }

    /// The stream type announced for each SSRC.
    pub closed spec fn meta(&self) -> Map<u32, Seq<char>> {
        self.meta@.map_values(|s: String| s@)
    }

    pub closed spec fn wf(&self) -> bool {
        self.aliases.wf()
    }

    /// Two different SSRCs named by the helper carry different aliases.
    pub proof fn lemma_distinct_aliases(&self, a: u32, b: u32)
        requires
            self.wf(),
            self.seen().contains(a),
            self.seen().contains(b),
            a != b,
        ensures
            alias_in(self.seen(), a) != alias_in(self.seen(), b),
    {
        self.aliases.lemma_seen_unique();
        lemma_aliases_distinct(self.seen(), a, b);
    }

    /// Naming a new SSRC leaves the alias of every SSRC named before unchanged.
    pub proof fn lemma_alias_kept(&self, named: u32, new_ssrc: u32)
        requires
            self.wf(),
            self.seen().contains(named),
            !self.seen().contains(new_ssrc),
        ensures
            alias_in(self.seen().push(new_ssrc), named) == alias_in(self.seen(), named),
    {
        self.aliases.lemma_seen_unique();
        lemma_alias_kept(self.seen(), named, new_ssrc);
    }

    /// A helper that has named nothing and knows no stream type.
    pub fn new() -> (h: StreamAliasHelper)
        ensures
            h.wf(),
            h.seen() == Seq::<u32>::empty(),
            h.meta() == Map::<u32, Seq<char>>::empty(),
    {
        let h = StreamAliasHelper { aliases: AliasCache::new(), meta: HashMap::new() };
        assert(h.meta() =~= Map::<u32, Seq<char>>::empty());
        h
    }

    /// The alias of `ssrc`.  An SSRC asked about for the first time gets the
    /// next unused name, and keeps it.
    pub fn get_alias(&mut self, ssrc: u32) -> (r: String)
        requires
            old(self).wf(),
        ensures
            final(self).wf(),
            final(self).seen() == (if old(self).seen().contains(ssrc) {
                old(self).seen()
            } else {
                old(self).seen().push(ssrc)
            }),
            final(self).meta() == old(self).meta(),
            r@ == alias_in(final(self).seen(), ssrc),
    {
        self.aliases.alias(ssrc)
    }

    /// Records the stream type announced for `ssrc`, replacing an earlier one.
    pub fn put_meta(&mut self, ssrc: u32, stream_type: String)
        requires
            old(self).wf(),
        ensures
            final(self).wf(),
            final(self).seen() == old(self).seen(),
            final(self).meta() == old(self).meta().insert(ssrc, stream_type@),
    {
        let ghost old_meta = self.meta@;
        self.meta.insert(ssrc, stream_type);
        assert(self.meta() =~= old_meta.map_values(|s: String| s@).insert(ssrc, stream_type@));
    }

    /// The stream type announced for `ssrc`, if any.
    pub fn get_meta(&self, ssrc: u32) -> (r: Option<String>)
        ensures
            match r {
                Some(t) => self.meta().contains_key(ssrc) && t@ == self.meta()[ssrc],
                None => !self.meta().contains_key(ssrc),
            },
    {
        if let Some(meta_data) = self.meta.get(&ssrc) {
            return Some(meta_data.clone());
        }
        None
    }

    /// The SSRC in hexadecimal followed by its alias.
    pub fn print_ssrc(&mut self, ssrc: u32) -> (r: String)
        requires
            old(self).wf(),
        ensures
            final(self).wf(),
            final(self).seen() == (if old(self).seen().contains(ssrc) {
                old(self).seen()
            } else {
                old(self).seen().push(ssrc)
            }),
            final(self).meta() == old(self).meta(),
            r@ == ssrc_text(ssrc, alias_in(final(self).seen(), ssrc)),
    {
        let alias = self.get_alias(ssrc);
        ssrc_string(ssrc, &alias)
    }
}

impl Default for StreamAliasHelper {
    fn default() -> (h: StreamAliasHelper)
        ensures
            h.wf(),
            h.seen() == Seq::<u32>::empty(),
            h.meta() == Map::<u32, Seq<char>>::empty(),
    {
        StreamAliasHelper::new()
    }
}

/// `format!("{:x} | alias: {}", ssrc, alias)`.
pub(crate) fn ssrc_string(ssrc: u32, alias: &String) -> (r: String)
    ensures
        r@ == ssrc_text(ssrc, alias@),
{
    let digits = hex_chars(ssrc as u64);
    let mut r = string_from_chars(&digits);
    r.append(" | alias: ");
    r.append(alias.as_str());
    r
}

} // verus!
