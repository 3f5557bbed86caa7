//! Response headers: best-effort adoption of raw byte pairs.
//!
//! A `start` message carries raw header pairs. A pair is kept only when
//! hyper accepts both halves: the name must be a nonempty token of at most
//! 65535 bytes (ASCII uppercase is folded to lowercase), the value must
//! consist of printable bytes or TAB. Pairs that fail either test are
//! dropped silently; inserting a name twice replaces its value in place,
//! as hyper's header map does.

use vstd::prelude::*;

verus! {

/// A header pair in the mathematical model: name bytes and value bytes.
pub type HeaderPair = (Seq<u8>, Seq<u8>);

/// Deep view of a list of owned byte pairs.
pub open spec fn pairs_view(l: Seq<(Vec<u8>, Vec<u8>)>) -> Seq<HeaderPair> {
    l.map_values(|p: (Vec<u8>, Vec<u8>)| (p.0@, p.1@))
}

/// How hyper's name table maps one byte: `0` marks the byte invalid,
/// anything else is the byte the stored name keeps (uppercase ASCII is
/// folded to lowercase; every other accepted byte stays itself).
pub open spec fn name_byte_mapped(b: u8) -> u8 {
    if 97 <= b && b <= 122 {  // 'a'..='z'
        b
    } else if 65 <= b && b <= 90 {  // 'A'..='Z', folded to lowercase
        (b + 32) as u8
    } else if 48 <= b && b <= 57 {  // '0'..='9'
        b
    } else if b == 33 || b == 34 || b == 35 || b == 36 || b == 37 || b == 38  // ! " # $ % &
        || b == 39 || b == 42 || b == 43 || b == 45 || b == 46 || b == 94  // ' * + - . ^
        || b == 95 || b == 96 || b == 124 || b == 126 {  // _ ` | ~
        b
    } else {
        0
    }
}

/// The names hyper's `HeaderName::from_bytes` accepts: nonempty, at most
/// 65535 bytes, every byte mapped by the name table.
pub open spec fn header_name_ok(name: Seq<u8>) -> bool {
    &&& 1 <= name.len() <= 65535
    &&& forall|i: int| 0 <= i < name.len() ==> name_byte_mapped(#[trigger] name[i]) != 0
}

/// The stored form of an accepted name: each byte run through the table.
pub open spec fn lower_name(name: Seq<u8>) -> Seq<u8> {
    name.map_values(|b: u8| name_byte_mapped(b))
}

/// The values hyper's `HeaderValue::from_bytes` accepts: every byte
/// printable (at least 32 and not DEL) or TAB.
pub open spec fn header_value_ok(value: Seq<u8>) -> bool {
    forall|i: int| 0 <= i < value.len() ==> {
        let b = #[trigger] value[i];
        b == 9 || (b >= 32 && b != 127)
    }
}

/// Whether a raw pair survives adoption.
pub open spec fn pair_ok(p: HeaderPair) -> bool {
    header_name_ok(p.0) && header_value_ok(p.1)
}

/// Relies on hyper's `HeaderName::from_bytes` (the `http` crate): it
/// accepts exactly the nonempty names of at most 65535 bytes whose bytes
/// its character table maps, and stores the name with every byte run
/// through that table (ASCII uppercase folded to lowercase).
#[verifier::external_body]
fn parse_header_name(raw: &[u8]) -> (r: Option<Vec<u8>>)
    ensures
        r is Some <==> header_name_ok(raw@),
        r matches Some(name) ==> name@ == lower_name(raw@),
{
    match hyper::header::HeaderName::from_bytes(raw) {
        Ok(name) => Some(name.as_str().as_bytes().to_vec()),
        Err(_) => None,
    }
}

/// Relies on hyper's `HeaderValue::from_bytes` (the `http` crate): it
/// accepts exactly the byte strings in which every byte is printable
/// (at least 32 and not DEL) or TAB, and keeps the bytes unchanged.
#[verifier::external_body]
fn value_acceptable(raw: &[u8]) -> (r: bool)
    ensures
        r == header_value_ok(raw@),
{
    hyper::header::HeaderValue::from_bytes(raw).is_ok()
}

/// What inserting one pair does to the model: the first entry with the
/// same name has its value replaced in place; a new name is appended.
pub open spec fn spec_insert(hs: Seq<HeaderPair>, name: Seq<u8>, value: Seq<u8>) -> Seq<HeaderPair>
    decreases hs.len(),
{
    if hs.len() == 0 {
        seq![(name, value)]
    } else if hs[0].0 == name {
        seq![(name, value)] + hs.skip(1)
    } else {
        seq![hs[0]] + spec_insert(hs.skip(1), name, value)
    }
}

/// Adoption of the first `n` raw pairs, in submission order: a pair whose
/// name and value hyper accepts is inserted (name lowercased), any other
/// pair is dropped.
pub open spec fn adopt_prefix(raw: Seq<HeaderPair>, n: int) -> Seq<HeaderPair>
    decreases n,
{
    if n <= 0 {
        Seq::empty()
    } else {
        let prev = adopt_prefix(raw, n - 1);
        let p = raw[n - 1];
        if pair_ok(p) {
            spec_insert(prev, lower_name(p.0), p.1)
        } else {
            prev
        }
    }
}

/// Adoption of a whole raw header list.
pub open spec fn adopt(raw: Seq<HeaderPair>) -> Seq<HeaderPair> {
    adopt_prefix(raw, raw.len() as int)
}

/// The ordered response headers, as accumulated by the sender.
pub struct Headers {
    entries: Vec<(Vec<u8>, Vec<u8>)>,
}

impl View for Headers {
    type V = Seq<HeaderPair>;

    closed spec fn view(&self) -> Seq<HeaderPair> {
        pairs_view(self.entries@)
    }
}

/// Every stored name is one hyper accepted, already folded to lowercase;
/// every stored value is one hyper accepted; no name occurs twice.
pub open spec fn headers_wf(hs: Seq<HeaderPair>) -> bool {
    &&& forall|i: int| 0 <= i < hs.len() ==> header_name_ok(#[trigger] hs[i].0)
        && lower_name(hs[i].0) == hs[i].0 && header_value_ok(hs[i].1)
    &&& forall|i: int, j: int| 0 <= i < j < hs.len() ==> hs[i].0 != hs[j].0
}

impl Headers {
    /// An empty header map.
    pub fn new() -> (r: Self)
        ensures
            r@ == Seq::<HeaderPair>::empty(),
    {
        Headers { entries: Vec::new() }
    }

    /// How many headers are set.
    pub fn len(&self) -> (n: usize)
        ensures
            n == self@.len(),
    {
        self.entries.len()
    }

    /// The pair at one position.
    pub fn get(&self, i: usize) -> (r: &(Vec<u8>, Vec<u8>))
        requires
            i < self@.len(),
        ensures
            (r.0@, r.1@) == self@[i as int],
    {
        &self.entries[i]
    }

    /// An owned copy with the same entries.
    pub fn duplicate(&self) -> (r: Headers)
        ensures
            r@ == self@,
    {
        let mut entries: Vec<(Vec<u8>, Vec<u8>)> = Vec::new();
        let mut i: usize = 0;
        while i < self.entries.len()
            invariant
                i <= self.entries.len(),
                entries@.len() == i,
                pairs_view(entries@) == self@.subrange(0, i as int),
            decreases self.entries.len() - i,
        {
            let ghost prev = entries@;
            let p = &self.entries[i];
            entries.push((copy_bytes(&p.0), copy_bytes(&p.1)));
            proof {
                assert forall|j: int| 0 <= j < entries@.len() implies
                    pairs_view(entries@)[j] == self@.subrange(0, i as int + 1)[j] by {
                    if j < i as int {
                        assert(entries@[j] == prev[j]);
                        assert(pairs_view(prev)[j] == self@.subrange(0, i as int)[j]);
                    } else {
                        assert(entries@[j].0@ == self.entries@[i as int].0@);
                        assert(entries@[j].1@ == self.entries@[i as int].1@);
                        assert(self@[i as int] == (self.entries@[i as int].0@, self.entries@[i as int].1@));
                    }
                }
                assert(pairs_view(entries@) =~= self@.subrange(0, i as int + 1));
            }
            i += 1;
        }
        proof {
            assert(self@.subrange(0, self@.len() as int) =~= self@);
        }
        Headers { entries }
    }

    /// Insert one pair: replace the value of the first entry with the same
    /// name, or append a new entry.
    pub fn insert(&mut self, name: Vec<u8>, value: Vec<u8>)
        ensures
            final(self)@ == spec_insert(old(self)@, name@, value@),
            headers_wf(old(self)@) && header_name_ok(name@) && lower_name(name@) == name@
                && header_value_ok(value@) ==> headers_wf(final(self)@),
    {
        let mut i: usize = 0;
        while i < self.entries.len()
            invariant
                i <= self.entries.len(),
                *self == *old(self),
                forall|j: int| 0 <= j < i ==> self@[j].0 != name@,
            decreases self.entries.len() - i,
        {
            if compare_bytes(&self.entries[i].0, &name) {
                proof {
                    assert(self@[i as int] == (self.entries@[i as int].0@, self.entries@[i as int].1@));
                    assert(old(self)@[i as int].0 == name@);
                    lemma_insert_hit(old(self)@, name@, value@, i as int);
                }
                self.entries.remove(i);
                self.entries.insert(i, (name, value));
                proof {
                    assert(self@ =~= old(self)@.update(i as int, (name@, value@)));
                    if headers_wf(old(self)@) && header_name_ok(name@)
                        && lower_name(name@) == name@ && header_value_ok(value@) {
                        let hs = self@;
                        let prev = old(self)@;
                        let ii = i as int;
                        assert forall|p: int| 0 <= p < hs.len() implies
                            header_name_ok(#[trigger] hs[p].0) && lower_name(hs[p].0) == hs[p].0
                            && header_value_ok(hs[p].1) by {
                            if p != ii {
                                assert(hs[p] == prev[p]);
                            }
                        }
                        assert forall|p: int, q: int| 0 <= p < q < hs.len() implies
                            (#[trigger] hs[p]).0 != (#[trigger] hs[q]).0 by {
                            assert(prev[ii].0 == name@);
                            if p == ii {
                                assert(hs[q] == prev[q]);
                                assert(prev[ii].0 != prev[q].0);
                            } else if q == ii {
                                assert(hs[p] == prev[p]);
                                assert(prev[p].0 != prev[ii].0);
                            } else {
                                assert(hs[p] == prev[p]);
                                assert(hs[q] == prev[q]);
                            }
                        }
                        assert(headers_wf(hs));
                    }
                }
                return;
            }
            i += 1;
        }
        proof {
            lemma_insert_miss(old(self)@, name@, value@);
        }
        self.entries.push((name, value));
        proof {
            assert(final(self)@ =~= old(self)@.push((name@, value@)));
        }
    }

    /// Adopt a raw header list: the executable form of [`adopt`].
    pub fn adopt_list(raw: &Vec<(Vec<u8>, Vec<u8>)>) -> (r: Headers)
        ensures
            r@ == adopt(pairs_view(raw@)),
            headers_wf(r@),
    {
        let ghost raw_view = pairs_view(raw@);
        let mut ret = Headers::new();
        let mut i: usize = 0;
        while i < raw.len()
            invariant
                i <= raw.len(),
                raw_view == pairs_view(raw@),
                ret@ == adopt_prefix(raw_view, i as int),
                headers_wf(ret@),
            decreases raw.len() - i,
        {
            let pair = &raw[i];
            match parse_header_name(pair.0.as_slice()) {
                Some(name) => {
                    if value_acceptable(pair.1.as_slice()) {
                        proof {
                            lemma_lower_name_fixed(pair.0@);
                        }
                        ret.insert(name, copy_bytes(&pair.1));
                    }
                },
                None => {},
            }
            i += 1;
        }
        proof {
            assert(raw_view.len() == raw@.len());
        }
        ret
    }
}

/// Byte-for-byte equality of two buffers.
fn compare_bytes(a: &Vec<u8>, b: &Vec<u8>) -> (r: bool)
    ensures
        r == (a@ == b@),
{
    if a.len() != b.len() {
        return false;
    }
    let mut i: usize = 0;
    while i < a.len()
        invariant
            i <= a.len(),
            a@.len() == b@.len(),
            forall|j: int| 0 <= j < i ==> a@[j] == b@[j],
        decreases a.len() - i,
    {
        if a[i] != b[i] {
            return false;
        }
        i += 1;
    }
    proof {
        assert(a@ =~= b@);
    }
    true
}

/// An owned copy of a byte buffer.
pub(crate) fn copy_bytes(v: &Vec<u8>) -> (r: Vec<u8>)
    ensures
        r@ == v@,
{
    let mut out: Vec<u8> = Vec::new();
    let mut i: usize = 0;
    while i < v.len()
        invariant
            i <= v.len(),
            out@ == v@.subrange(0, i as int),
        decreases v.len() - i,
    {
        out.push(v[i]);
        i += 1;
    }
    proof {
        assert(v@.subrange(0, v@.len() as int) =~= v@);
    }
    out
}

/// The table's image of an accepted name is itself accepted and is its
/// own image: adoption stores names in a fixed point of the folding.
pub proof fn lemma_lower_name_fixed(name: Seq<u8>)
    requires
        header_name_ok(name),
    ensures
        header_name_ok(lower_name(name)),
        lower_name(lower_name(name)) == lower_name(name),
{
    assert forall|i: int| 0 <= i < lower_name(name).len() implies
        name_byte_mapped(#[trigger] lower_name(name)[i]) != 0
        && name_byte_mapped(lower_name(name)[i]) == lower_name(name)[i] by {
        assert(lower_name(name)[i] == name_byte_mapped(name[i]));
    }
    assert(lower_name(lower_name(name)) =~= lower_name(name));
}

/// Adoption reads only the first `n` pairs, so two lists that agree there
/// are adopted alike.
proof fn lemma_adopt_prefix_agrees(a: Seq<HeaderPair>, b: Seq<HeaderPair>, n: int)
    requires
        n <= a.len(),
        n <= b.len(),
        forall|j: int| 0 <= j < n ==> a[j] == b[j],
    ensures
        adopt_prefix(a, n) == adopt_prefix(b, n),
    decreases n,
{
    if n > 0 {
        lemma_adopt_prefix_agrees(a, b, n - 1);
    }
}

/// Pairs that fail validation are dropped without aborting the rest:
/// adopting a raw header list yields exactly the adoption of its accepted
/// pairs, in submission order.
pub proof fn lemma_malformed_pairs_dropped(raw: Seq<HeaderPair>)
    ensures
        adopt(raw) == adopt(raw.filter(|p: HeaderPair| pair_ok(p))),
    decreases raw.len(),
{
    reveal(Seq::filter);
    let accepted = |p: HeaderPair| pair_ok(p);
    if raw.len() > 0 {
        let rest = raw.drop_last();
        lemma_malformed_pairs_dropped(rest);
        lemma_adopt_prefix_agrees(raw, rest, raw.len() - 1);
        let kept = raw.filter(accepted);
        let kept_rest = rest.filter(accepted);
        if pair_ok(raw.last()) {
            assert(kept == kept_rest.push(raw.last()));
            kept_rest.lemma_filter_len(accepted);
            lemma_adopt_prefix_agrees(kept, kept_rest, kept_rest.len() as int);
            assert(kept[kept.len() - 1] == raw.last());
        } else {
            assert(kept == kept_rest);
        }
    }
}

/// Inserting a name that first occurs at position `i` replaces the value
/// there and nothing else.
proof fn lemma_insert_hit(hs: Seq<HeaderPair>, name: Seq<u8>, value: Seq<u8>, i: int)
    requires
        0 <= i < hs.len(),
        hs[i].0 == name,
        forall|j: int| 0 <= j < i ==> hs[j].0 != name,
    ensures
        spec_insert(hs, name, value) == hs.update(i, (name, value)),
    decreases i,
{
    if i == 0 {
        assert(spec_insert(hs, name, value) =~= hs.update(0, (name, value)));
    } else {
        assert(hs[0].0 != name);
        lemma_insert_hit(hs.skip(1), name, value, i - 1);
        assert(spec_insert(hs, name, value) =~= hs.update(i, (name, value)));
    }
}

/// Inserting a name that does not occur appends the pair.
proof fn lemma_insert_miss(hs: Seq<HeaderPair>, name: Seq<u8>, value: Seq<u8>)
    requires
        forall|j: int| 0 <= j < hs.len() ==> hs[j].0 != name,
    ensures
        spec_insert(hs, name, value) == hs.push((name, value)),
    decreases hs.len(),
{
    if hs.len() == 0 {
        assert(spec_insert(hs, name, value) =~= hs.push((name, value)));
    } else {
        assert(hs[0].0 != name);
        lemma_insert_miss(hs.skip(1), name, value);
        assert(spec_insert(hs, name, value) =~= hs.push((name, value)));
    }
}

}
