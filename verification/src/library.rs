//! A small library of disk images the user has added.
//!
//! The application persists it as JSON under the app config dir and saves
//! it after every change made here.

use vstd::prelude::*;

use crate::image_selection::{basename_or_image, basename_or_image_exec, extension_of, is_iso};
use crate::paths::lower_extension_spec;
use crate::state::{default_mode_for, ImageMode};
use crate::text::{chars_eq, chars_of, decimal, decimal_string, digit_char, digit_char_exec};

verus! {

/// One image in the library.
#[derive(Debug, Clone, PartialEq, Eq)]
pub struct ImageEntry {
    /// Absolute host path.
    pub path: String,
    /// Display name (basename by default).
    pub display_name: String,
    /// Size in bytes, if known.
    pub size: Option<u64>,
    /// Whether to expose as CD-ROM (true) or disk (false).
    pub cdrom: bool,
    /// Whether the mode may be toggled (hybrid `.iso`).
    pub hybrid: bool,
}

/// The mathematical content of an [`ImageEntry`].
pub struct ImageEntryView {
    pub path: Seq<char>,
    pub display_name: Seq<char>,
    pub size: Option<u64>,
    pub cdrom: bool,
    pub hybrid: bool,
}

impl View for ImageEntry {
    type V = ImageEntryView;

    open spec fn view(&self) -> ImageEntryView {
        ImageEntryView {
            path: self.path@,
            display_name: self.display_name@,
            size: self.size,
            cdrom: self.cdrom,
            hybrid: self.hybrid,
        }
    }
}

/// The exposure mode of an entry.
pub open spec fn entry_mode(e: ImageEntryView) -> ImageMode {
    if e.cdrom {
        ImageMode::Cdrom
    } else {
        ImageMode::Disk
    }
}

impl ImageEntry {
    /// Build an entry from a chosen path (+ optional size).
    pub fn from_path(path: String, size: Option<u64>) -> (e: ImageEntry)
        ensures
            e.path@ == path@,
            e.display_name@ == basename_or_image(path@),
            e.size == size,
            e.cdrom == (default_mode_for(lower_extension_spec(path@)) == ImageMode::Cdrom),
            e.hybrid == (lower_extension_spec(path@) == "iso"@),
    {
        let display_name = basename_or_image_exec(path.as_str());
        let ext = extension_of(path.as_str());
        let cdrom = ImageMode::default_for_extension(ext.as_str()) == ImageMode::Cdrom;
        ImageEntry { hybrid: is_iso(ext.as_str()), cdrom, display_name, size, path }
    }

    /// The exposure mode for this entry.
    pub fn mode(&self) -> (m: ImageMode)
        ensures
            m == entry_mode(self@),
    {
        if self.cdrom {
            ImageMode::Cdrom
        } else {
            ImageMode::Disk
        }
    }

    /// A copy of this entry.
    pub fn duplicate(&self) -> (r: ImageEntry)
        ensures
            r@ == self@,
    {
        ImageEntry {
            path: self.path.clone(),
            display_name: self.display_name.clone(),
            size: self.size,
            cdrom: self.cdrom,
            hybrid: self.hybrid,
        }
    }
}

/// The whole library.
#[derive(Debug, Clone)]
pub struct Library {
    /// Images, most-recently-added last.
    pub entries: Vec<ImageEntry>,
}

/// The entries of a library as spec values.
pub open spec fn entry_views(v: Seq<ImageEntry>) -> Seq<ImageEntryView> {
    v.map_values(|e: ImageEntry| e@)
}

/// `s` without the entries whose path is `p`, order kept.
pub open spec fn without_path(s: Seq<ImageEntryView>, p: Seq<char>) -> Seq<ImageEntryView>
    decreases s.len(),
{
    if s.len() == 0 {
        s
    } else {
        let r = without_path(s.drop_last(), p);
        if s.last().path == p {
            r
        } else {
            r.push(s.last())
        }
    }
}

impl Library {
    /// An empty library.
    pub fn new() -> (l: Library)
        ensures
            l.entries@.len() == 0,
    {
        Library { entries: Vec::new() }
    }

    /// Add an entry, de-duplicated by path: an existing entry with the same
    /// path is dropped and the new one goes to the end.
    pub fn add(&mut self, entry: ImageEntry)
        ensures
            entry_views(final(self).entries@) == without_path(
                entry_views(old(self).entries@),
                entry@.path,
            ).push(entry@),
    {
        let ghost old_views = entry_views(self.entries@);
        let p = chars_of(entry.path.as_str());
        let mut kept: Vec<ImageEntry> = Vec::new();
        let mut i: usize = 0;
        assert(old_views.take(0) =~= Seq::<ImageEntryView>::empty());
        while i < self.entries.len()
            invariant
                i <= self.entries@.len(),
                old_views == entry_views(self.entries@),
                p@ == entry@.path,
                entry_views(kept@) == without_path(old_views.take(i as int), entry@.path),
            decreases self.entries@.len() - i,
        {
            let ghost pre = old_views.take(i as int);
            assert(old_views.take(i + 1).drop_last() =~= pre);
            assert(old_views.take(i + 1).last() == self.entries@[i as int]@);
            let q = chars_of(self.entries[i].path.as_str());
            if !chars_eq(q.as_slice(), p.as_slice()) {
                let ghost before = kept@;
                let e = self.entries[i].duplicate();
                kept.push(e);
                assert(entry_views(kept@) =~= entry_views(before).push(self.entries@[i as int]@));
            }
            i = i + 1;
        }
        assert(old_views.take(self.entries@.len() as int) =~= old_views);
        let ghost before = kept@;
        let ghost ev = entry@;
        kept.push(entry);
        assert(entry_views(kept@) =~= entry_views(before).push(ev));
        self.entries = kept;
    }

    /// Remove the entry at `index`; an index past the end changes nothing.
    pub fn remove(&mut self, index: usize)
        ensures
            index < old(self).entries@.len() ==> final(self).entries@ == old(
                self,
            ).entries@.remove(index as int),
            index >= old(self).entries@.len() ==> final(self).entries@ == old(self).entries@,
    {
        if index < self.entries.len() {
            self.entries.remove(index);
        }
    }
}

/// After an addition the new entry is the last one and no other entry
/// shares its path.
pub proof fn lemma_add_deduplicates(s: Seq<ImageEntryView>, e: ImageEntryView)
    ensures
        without_path(s, e.path).push(e).last() == e,
        forall|i: int|
            0 <= i < without_path(s, e.path).len() ==> #[trigger] without_path(s, e.path)[i].path
                != e.path,
    decreases s.len(),
{
    if s.len() > 0 {
        lemma_add_deduplicates(s.drop_last(), e);
    }
}

/// An addition keeps every other entry, in order.
pub proof fn lemma_add_keeps_others(s: Seq<ImageEntryView>, p: Seq<char>)
    ensures
        forall|i: int| 0 <= i < s.len() && s[i].path != p ==> without_path(s, p).contains(s[i]),
        without_path(s, p).len() <= s.len(),
    decreases s.len(),
{
    if s.len() > 0 {
        lemma_add_keeps_others(s.drop_last(), p);
        let r = without_path(s.drop_last(), p);
        assert forall|i: int| 0 <= i < s.len() && s[i].path != p implies without_path(
            s,
            p,
        ).contains(s[i]) by {
            if i < s.len() - 1 {
                assert(s.drop_last()[i] == s[i]);
                let k = choose|k: int| 0 <= k < r.len() && r[k] == s[i];
                if s.last().path != p {
                    assert(r.push(s.last())[k] == s[i]);
                }
            } else {
                assert(r.push(s.last())[r.len() as int] == s[i]);
            }
        }
    }
}

// ---------------------------------------------------------------------------
// Sizes
// ---------------------------------------------------------------------------

/// `base` to the power `e`.
pub open spec fn power(base: nat, e: nat) -> nat
    decreases e,
{
    if e == 0 {
        1
    } else {
        base * power(base, (e - 1) as nat)
    }
}

/// How many low bits of `n` do not fit in the 53-bit significand of a
/// double.
pub open spec fn excess_bits(n: nat) -> nat
    decreases n,
{
    if n < 0x20_0000_0000_0000 {
        0
    } else {
        1 + excess_bits(n / 2)
    }
}

/// `n` as the nearest double-precision number (ties to even), the value an
/// integer takes when converted to floating point.
pub open spec fn as_double(n: nat) -> nat {
    let p = power(2, excess_bits(n));
    let q = n / p;
    let r = n % p;
    if r * 2 > p || (r * 2 == p && q % 2 == 1) {
        (q + 1) * p
    } else {
        q * p
    }
}

/// The unit a size is shown in: the largest power of 1024 (up to the
/// fourth) that does not exceed it.
pub open spec fn size_unit(b: nat) -> nat {
    if b >= power(1024, 4) {
        4
    } else if b >= power(1024, 3) {
        3
    } else if b >= power(1024, 2) {
        2
    } else if b >= 1024 {
        1
    } else {
        0
    }
}

/// `b / d` in tenths, rounded to the nearest tenth (ties to even).
pub open spec fn tenths(b: nat, d: nat) -> nat {
    let q = (10 * b) / d;
    let r = (10 * b) % d;
    if r * 2 > d || (r * 2 == d && q % 2 == 1) {
        q + 1
    } else {
        q
    }
}

/// The name of the `k`-th binary unit.
pub open spec fn unit_name(k: nat) -> Seq<char> {
    if k == 0 {
        "B"@
    } else if k == 1 {
        "KB"@
    } else if k == 2 {
        "MB"@
    } else if k == 3 {
        "GB"@
    } else {
        "TB"@
    }
}

/// A byte count for people: plain bytes below 1 KB, else the value in the
/// largest fitting binary unit (up to TB) with one decimal, as floating
/// point arithmetic and formatting compute it.
pub open spec fn human_size_spec(bytes: u64) -> Seq<char> {
    let b = as_double(bytes as nat);
    let k = size_unit(b);
    if k == 0 {
        decimal(bytes as nat) + " B"@
    } else {
        let t = tenths(b, power(1024, k));
        decimal(t / 10) + "."@ + seq![digit_char(t % 10)] + " "@ + unit_name(k)
    }
}

/// `n` rounded to the nearest double-precision number.
fn nearest_double(n: u64) -> (r: u128)
    ensures
        r == as_double(n as nat),
        r <= 0x2_0000_0000_0000_0000,
{
    let mut m: u64 = n;
    let mut low: u64 = 0;
    let mut p: u64 = 1;
    let ghost mut e: nat = 0;
    while m >= 0x20_0000_0000_0000
        invariant
            p == power(2, e),
            n == m * p + low,
            low < p,
            1 <= p <= 0x1000,
            excess_bits(n as nat) == e + excess_bits(m as nat),
        decreases m,
    {
        assert(p < 0x800) by (nonlinear_arith)
            requires
                n == m * p + low,
                m >= 0x20_0000_0000_0000,
                n <= 0xffff_ffff_ffff_ffff,
                p >= 1,
        ;
        let bit = m % 2;
        let half = m / 2;
        assert(m * p == half * (2 * p) + bit * p) by (nonlinear_arith)
            requires
                m == 2 * half + bit,
        ;
        assert(bit * p <= p) by (nonlinear_arith)
            requires
                bit <= 1,
                p >= 1,
        ;
        low = low + bit * p;
        m = half;
        p = p * 2;
        proof {
            e = e + 1;
        }
    }
    proof {
        vstd::arithmetic::div_mod::lemma_fundamental_div_mod_converse(
            n as int,
            p as int,
            m as int,
            low as int,
        );
    }
    assert(m * p <= n);
    assert(excess_bits(n as nat) == e);
    if low * 2 > p || (low * 2 == p && m % 2 == 1) {
        assert((m + 1) * p <= 0x2_0000_0000_0000_0000) by (nonlinear_arith)
            requires
                m * p <= n,
                n <= 0xffff_ffff_ffff_ffff,
                p <= 0x1000,
        ;
        (m as u128 + 1) * (p as u128)
    } else {
        (m as u128) * (p as u128)
    }
}

/// A byte count for people, like `3.7 GB`.
pub fn human_size(bytes: u64) -> (r: String)
    ensures
        r@ == human_size_spec(bytes),
{
    let b = nearest_double(bytes);
    let (k, d): (u64, u128) = if b >= 1_099_511_627_776 {
        (4, 1_099_511_627_776)
    } else if b >= 1_073_741_824 {
        (3, 1_073_741_824)
    } else if b >= 1_048_576 {
        (2, 1_048_576)
    } else if b >= 1024 {
        (1, 1024)
    } else {
        (0, 1)
    };
    assert(power(1024, 2) == 1_048_576) by {
        reveal_with_fuel(power, 3);
    }
    assert(power(1024, 3) == 1_073_741_824) by {
        reveal_with_fuel(power, 4);
    }
    assert(power(1024, 4) == 1_099_511_627_776) by {
        reveal_with_fuel(power, 5);
    }
    if k == 0 {
        return decimal_string(bytes).concat(" B");
    }
    assert(d == power(1024, k as nat)) by {
        reveal_with_fuel(power, 5);
    }
    let q = (10 * b) / d;
    let rem = (10 * b) % d;
    let t = if rem * 2 > d || (rem * 2 == d && q % 2 == 1) {
        q + 1
    } else {
        q
    };
    proof {
        vstd::arithmetic::div_mod::lemma_div_is_ordered_by_denominator(
            (10 * b) as int,
            1024,
            d as int,
        );
        vstd::arithmetic::div_mod::lemma_div_is_ordered(
            (10 * b) as int,
            10 * 0x2_0000_0000_0000_0000int,
            1024,
        );
    }
    assert(t / 10 <= 0x100_0000_0000_0000);
    let whole = decimal_string((t / 10) as u64);
    let digit = digit_char_exec((t % 10) as u64);
    let unit = if k == 1 {
        "KB"
    } else if k == 2 {
        "MB"
    } else if k == 3 {
        "GB"
    } else {
        "TB"
    };
    let mut frac = String::new();
    crate::text::push_char(&mut frac, digit);
    assert(frac@ =~= seq![digit_char((t % 10) as nat)]);
    whole.concat(".").concat(frac.as_str()).concat(" ").concat(unit)
}

/// Dropping the entries with a path keeps the others, in their order: it is
/// the sequence filtered by a different path.
pub proof fn lemma_without_path_filters(s: Seq<ImageEntryView>, p: Seq<char>)
    ensures
        without_path(s, p) == s.filter(|e: ImageEntryView| e.path != p),
        without_path(s, p).len() <= s.len(),
        forall|k: int| 0 <= k < without_path(s, p).len() ==> (#[trigger] without_path(s, p)[k]).path != p,
    decreases s.len(),
{
    reveal(Seq::filter);
    if s.len() > 0 {
        lemma_without_path_filters(s.drop_last(), p);
    }
    s.filter_lemma(|e: ImageEntryView| e.path != p);
}

/// Adding an entry twice keeps one copy: after adding `e` to a library
/// whose entries are `s`, the entries are those of `s` with another path,
/// in their order, then `e`; and adding `e` again changes nothing.
pub proof fn lemma_add_twice(s: Seq<ImageEntryView>, e: ImageEntryView)
    ensures
        without_path(without_path(s, e.path).push(e), e.path).push(e) == without_path(s, e.path).push(e),
{
    let r = without_path(s, e.path);
    lemma_without_path_filters(s, e.path);
    lemma_without_path_keeps(r, e.path);
    assert(r.push(e).drop_last() =~= r);
    assert(without_path(r.push(e), e.path) == without_path(r, e.path));
}

/// A sequence with no entry at `p` is kept whole.
pub proof fn lemma_without_path_keeps(s: Seq<ImageEntryView>, p: Seq<char>)
    requires
        forall|k: int| 0 <= k < s.len() ==> (#[trigger] s[k]).path != p,
    ensures
        without_path(s, p) == s,
    decreases s.len(),
{
    if s.len() > 0 {
        lemma_without_path_keeps(s.drop_last(), p);
        assert(s.drop_last().push(s.last()) =~= s);
    }
}

} // verus!
