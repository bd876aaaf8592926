use vstd::prelude::*;
use vstd::string::StrSliceExecFns;

use crate::errno::Errno;

verus! {

/// A message authentication code, 16 bytes.
pub type Mac = [u8; 16];

/// Whether `c` is white space, as Unicode's `White_Space` property has it.
pub open spec fn is_white(c: char) -> bool {
    let u = c as u32;
    (9 <= u <= 13) || u == 32 || u == 0x85 || u == 0xa0 || u == 0x1680 || (0x2000 <= u <= 0x200a)
        || u == 0x2028 || u == 0x2029 || u == 0x202f || u == 0x205f || u == 0x3000
}

/// Whether `c` is white space.
pub fn white(c: char) -> (r: bool)
    ensures
        r == is_white(c),
{
    let u = c as u32;
    (9 <= u && u <= 13) || u == 32 || u == 0x85 || u == 0xa0 || u == 0x1680 || (0x2000 <= u && u <= 0x200a)
        || u == 0x2028 || u == 0x2029 || u == 0x202f || u == 0x205f || u == 0x3000
}

/// The value of `c` as a digit in base `radix` (2 to 36), or -1.
pub open spec fn digit_val(c: char, radix: int) -> int {
    let u = c as u32;
    let v = if 48 <= u <= 57 {
        u - 48
    } else if 97 <= u <= 122 {
        u - 87
    } else if 65 <= u <= 90 {
        u - 55
    } else {
        99
    };
    if v < radix {
        v as int
    } else {
        -1
    }
}

/// The number that the digits `d` write in base `radix`.
pub open spec fn num(d: Seq<char>, radix: int) -> int
    decreases d.len(),
{
    if d.len() == 0 {
        0
    } else {
        num(d.drop_last(), radix) * radix + digit_val(d.last(), radix)
    }
}

/// `s` without a leading `+`.
pub open spec fn digits_part(s: Seq<char>) -> Seq<char> {
    if s.len() > 0 && s[0] == '+' {
        s.drop_first()
    } else {
        s
    }
}

/// Every character of `d` is a digit in base `radix`.
pub open spec fn all_digits(d: Seq<char>, radix: int) -> bool {
    forall|i: int| 0 <= i < d.len() ==> digit_val(#[trigger] d[i], radix) >= 0
}

/// What parsing `s` as an unsigned number in base `radix`, up to `max`,
/// gives: an optional `+`, then at least one digit, and no more than `max`.
pub open spec fn spec_parse_num(s: Seq<char>, radix: int, max: int) -> Option<int> {
    let d = digits_part(s);
    if d.len() == 0 || !all_digits(d, radix) {
        None
    } else if num(d, radix) > max {
        None
    } else {
        Some(num(d, radix))
    }
}

/// The digit value of `c` in base `radix`, or -1.
fn digit(c: char, radix: u32) -> (r: i64)
    requires
        2 <= radix <= 36,
    ensures
        r == digit_val(c, radix as int),
{
    let u = c as u32;
    let v: u32 = if 48 <= u && u <= 57 {
        u - 48
    } else if 97 <= u && u <= 122 {
        u - 87
    } else if 65 <= u && u <= 90 {
        u - 55
    } else {
        99
    };
    if v < radix {
        v as i64
    } else {
        -1
    }
}

/// Parses the characters `from..to` of `s` as an unsigned number in base
/// `radix`, no larger than `max`.
fn parse_num(s: &str, from: usize, to: usize, radix: u32, max: u64) -> (r: Option<u64>)
    requires
        from <= to <= s@.len(),
        2 <= radix <= 36,
    ensures
        r is Some <==> spec_parse_num(s@.subrange(from as int, to as int), radix as int, max as int) is Some,
        r matches Some(v) ==> spec_parse_num(s@.subrange(from as int, to as int), radix as int, max as int)
            == Some(v as int),
{
    let ghost sub = s@.subrange(from as int, to as int);
    let mut start = from;
    if from < to && s.get_char(from) == '+' {
        start = from + 1;
    }
    let ghost d = s@.subrange(start as int, to as int);
    proof {
        if sub.len() > 0 && sub[0] == '+' {
            assert(d =~= sub.drop_first());
        } else {
            assert(d =~= sub);
        }
        assert(d == digits_part(sub));
    }
    if start == to {
        return None;
    }
    let cap: u128 = max as u128 + 1;
    let mut acc: u128 = 0;
    let mut i = start;
    while i < to
        invariant
            from <= start <= i <= to <= s@.len(),
            d == s@.subrange(start as int, to as int),
            sub == s@.subrange(from as int, to as int),
            d == digits_part(sub),
            2 <= radix <= 36,
            cap == max + 1,
            acc <= cap,
            forall|k: int| 0 <= k < i - start ==> digit_val(#[trigger] d[k], radix as int) >= 0,
            acc == if num(d.take(i - start), radix as int) < cap { num(d.take(i - start), radix as int) } else { cap as int },
        decreases to - i,
    {
        let c = s.get_char(i);
        let v = digit(c, radix);
        proof {
            assert(d[i - start] == c);
        }
        if v < 0 {
            proof {
                let k = i - start;
                assert(0 <= k < d.len());
                assert(digit_val(d[k], radix as int) < 0);
                assert(!all_digits(d, radix as int));
            }
            return None;
        }
        let ghost prev = num(d.take(i - start), radix as int);
        proof {
            assert(d.take(i - start + 1).drop_last() =~= d.take(i - start));
            assert(num(d.take(i - start + 1), radix as int) == prev * radix + v);
            assert(prev >= 0) by {
                lemma_num_nonneg(d.take(i - start), radix as int);
            }
        }
        proof {
            assert(acc * radix <= cap * 36) by (nonlinear_arith)
                requires
                    acc <= cap,
                    radix <= 36,
            ;
        }
        let next: u128 = acc * (radix as u128) + (v as u128);
        acc = if next < cap {
            next
        } else {
            cap
        };
        proof {
            assert(acc == if prev * radix + v < cap { prev * radix + v } else { cap as int }) by (nonlinear_arith)
                requires
                    acc == if next < cap { next as int } else { cap as int },
                    next == (if prev < cap { prev } else { cap as int }) * radix + v,
                    prev >= 0,
                    v >= 0,
                    radix >= 2,
            ;
        }
        i = i + 1;
    }
    proof {
        assert(d.take(i - start) =~= d);
    }
    if acc >= cap {
        None
    } else {
        Some(acc as u64)
    }
}

/// A number written in digits is never negative.
proof fn lemma_num_nonneg(d: Seq<char>, radix: int)
    requires
        radix >= 2,
        forall|k: int| 0 <= k < d.len() ==> digit_val(#[trigger] d[k], radix) >= 0,
    ensures
        num(d, radix) >= 0,
    decreases d.len(),
{
    if d.len() > 0 {
        assert forall|k: int| 0 <= k < d.drop_last().len() implies digit_val(#[trigger] d.drop_last()[k], radix) >= 0 by {
            assert(d.drop_last()[k] == d[k]);
        }
        lemma_num_nonneg(d.drop_last(), radix);
        assert(digit_val(d.last(), radix) >= 0);
        assert(num(d.drop_last(), radix) * radix >= 0) by (nonlinear_arith)
            requires
                num(d.drop_last(), radix) >= 0,
                radix >= 2,
        ;
    }
}

/// `s` without its leading white space.
pub open spec fn strip_front(s: Seq<char>) -> Seq<char>
    decreases s.len(),
{
    if s.len() > 0 && is_white(s[0]) {
        strip_front(s.drop_first())
    } else {
        s
    }
}

/// `s` without its trailing white space.
pub open spec fn strip_back(s: Seq<char>) -> Seq<char>
    decreases s.len(),
{
    if s.len() > 0 && is_white(s.last()) {
        strip_back(s.drop_last())
    } else {
        s
    }
}

/// `s` without leading and trailing white space.
pub open spec fn trim(s: Seq<char>) -> Seq<char> {
    strip_back(strip_front(s))
}

/// The bounds, within `from..to`, of the characters of `s` there without
/// leading and trailing white space.
fn trim_range(s: &str, from: usize, to: usize) -> (r: (usize, usize))
    requires
        from <= to <= s@.len(),
    ensures
        from <= r.0 <= r.1 <= to,
        s@.subrange(r.0 as int, r.1 as int) == trim(s@.subrange(from as int, to as int)),
{
    let mut a = from;
    while a < to && white(s.get_char(a))
        invariant
            from <= a <= to <= s@.len(),
            strip_front(s@.subrange(from as int, to as int)) == strip_front(s@.subrange(a as int, to as int)),
        decreases to - a,
    {
        proof {
            assert(s@.subrange(a as int, to as int).drop_first() =~= s@.subrange(a + 1, to as int));
        }
        a = a + 1;
    }
    proof {
        assert(strip_front(s@.subrange(a as int, to as int)) == s@.subrange(a as int, to as int));
    }
    let mut b = to;
    while b > a && white(s.get_char(b - 1))
        invariant
            from <= a <= b <= to <= s@.len(),
            strip_front(s@.subrange(from as int, to as int)) == s@.subrange(a as int, to as int),
            strip_back(s@.subrange(a as int, to as int)) == strip_back(s@.subrange(a as int, b as int)),
        decreases b - a,
    {
        proof {
            assert(s@.subrange(a as int, b as int).drop_last() =~= s@.subrange(a as int, b - 1));
        }
        b = b - 1;
    }
    (a, b)
}

/// The length of the unit at the end of `t` and the factor it stands for:
/// the first of `KB`, `MB`, `GB`, `TB` and `B` that `t` ends with.
pub open spec fn unit_of(t: Seq<char>) -> Option<(int, int)> {
    let n = t.len();
    if n >= 2 && t[n - 2] == 'K' && t[n - 1] == 'B' {
        Some((2int, 1024int))
    } else if n >= 2 && t[n - 2] == 'M' && t[n - 1] == 'B' {
        Some((2int, 1048576int))
    } else if n >= 2 && t[n - 2] == 'G' && t[n - 1] == 'B' {
        Some((2int, 1073741824int))
    } else if n >= 2 && t[n - 2] == 'T' && t[n - 1] == 'B' {
        Some((2int, 1099511627776int))
    } else if n >= 1 && t[n - 1] == 'B' {
        Some((1int, 1int))
    } else {
        None
    }
}

/// The size that `s` writes: a number, then a unit, with white space
/// around either allowed; `None` when there is no unit, no number, or the
/// size does not fit a `usize`.
pub open spec fn spec_memory_size(s: Seq<char>) -> Option<int> {
    let t = trim(s);
    match unit_of(t) {
        None => None,
        Some((ul, f)) => match spec_parse_num(trim(t.take(t.len() - ul)), 10, usize::MAX as int) {
            None => None,
            Some(v) => if v * f > usize::MAX {
                None
            } else {
                Some(v * f)
            },
        },
    }
}

/// Whether the characters `a..b` of `s` end with `x` then `y`.
fn ends_with2(s: &str, a: usize, b: usize, x: char, y: char) -> (r: bool)
    requires
        a <= b <= s@.len(),
    ensures
        r == (b - a >= 2 && s@[b - 2] == x && s@[b - 1] == y),
{
    b - a >= 2 && s.get_char(b - 2) == x && s.get_char(b - 1) == y
}

/// Parses a memory size such as `128MB`; `EINVAL` when `spec_memory_size`
/// finds none.
pub fn parse_memory_size(mem_str: &str) -> (r: Result<usize, Errno>)
    ensures
        match spec_memory_size(mem_str@) {
            Some(v) => r matches Ok(x) && x as int == v,
            None => r == Err::<usize, Errno>(Errno::EINVAL),
        },
{
    let n = mem_str.unicode_len();
    let (a, b) = trim_range(mem_str, 0, n);
    let ghost t = mem_str@.subrange(a as int, b as int);
    proof {
        assert(mem_str@.subrange(0, n as int) =~= mem_str@);
    }
    let (ulen, factor): (usize, u64) = if ends_with2(mem_str, a, b, 'K', 'B') {
        (2, 1024)
    } else if ends_with2(mem_str, a, b, 'M', 'B') {
        (2, 1024 * 1024)
    } else if ends_with2(mem_str, a, b, 'G', 'B') {
        (2, 1024 * 1024 * 1024)
    } else if ends_with2(mem_str, a, b, 'T', 'B') {
        (2, 1024 * 1024 * 1024 * 1024)
    } else if b > a && mem_str.get_char(b - 1) == 'B' {
        (1, 1)
    } else {
        return Err(Errno::EINVAL);
    };
    proof {
        assert(unit_of(t) == Some((ulen as int, factor as int)));
    }
    let (c, d) = trim_range(mem_str, a, b - ulen);
    proof {
        assert(mem_str@.subrange(a as int, b - ulen) =~= t.take(t.len() - ulen));
    }
    let v = match parse_num(mem_str, c, d, 10, usize::MAX as u64) {
        None => return Err(Errno::EINVAL),
        Some(v) => v,
    };
    proof {
        assert((v as u128) * (factor as u128) <= 0xffff_ffff_ffff_ffffu128 * 1099511627776u128) by (nonlinear_arith)
            requires
                v <= 0xffff_ffff_ffff_ffffu64,
                factor <= 1099511627776u64,
        ;
    }
    let size: u128 = (v as u128) * (factor as u128);
    proof {
        assert(t == trim(mem_str@));
        assert(mem_str@.subrange(c as int, d as int) == trim(t.take(t.len() - ulen)));
        let x = spec_parse_num(trim(t.take(t.len() - ulen)), 10, usize::MAX as int);
        assert(x is Some && x->Some_0 == v);
        assert(size == v * factor);
    }
    if size > usize::MAX as u128 {
        Err(Errno::EINVAL)
    } else {
        Ok(size as usize)
    }
}

/// `s` cut at each `-`, in order; a string without one is a single piece.
pub open spec fn split_dash(s: Seq<char>) -> Seq<Seq<char>>
    decreases s.len(),
{
    if s.len() == 0 {
        seq![Seq::<char>::empty()]
    } else {
        let p = split_dash(s.drop_last());
        if s.last() == '-' {
            p.push(Seq::<char>::empty())
        } else {
            p.update(p.len() - 1, p.last().push(s.last()))
        }
    }
}

/// Every piece is a hexadecimal byte.
pub open spec fn all_hex_bytes(ps: Seq<Seq<char>>) -> bool {
    forall|k: int| 0 <= k < ps.len() ==> (#[trigger] spec_parse_num(ps[k], 16, 255)) is Some
}

/// The bytes that `s` writes as sixteen hexadecimal numbers joined by `-`.
pub open spec fn spec_mac(s: Seq<char>) -> Option<Seq<u8>> {
    let ps = split_dash(s);
    if ps.len() != 16 || !all_hex_bytes(ps) {
        None
    } else {
        Some(Seq::new(16, |k: int| spec_parse_num(ps[k], 16, 255)->Some_0 as u8))
    }
}

/// Parses a MAC written as sixteen hexadecimal bytes joined by `-`
/// (`EINVAL` otherwise).
pub fn parse_mac(mac_str: &str) -> (r: Result<Mac, Errno>)
    ensures
        match spec_mac(mac_str@) {
            Some(m) => r matches Ok(a) && a@ == m,
            None => r == Err::<Mac, Errno>(Errno::EINVAL),
        },
{
    let n = mac_str.unicode_len();
    let mut bounds: Vec<(usize, usize)> = Vec::new();
    let ghost mut parts: Seq<Seq<char>> = Seq::empty();
    let mut start: usize = 0;
    let mut i: usize = 0;
    proof {
        assert(mac_str@.take(0) =~= Seq::<char>::empty());
        assert(mac_str@.subrange(0, 0) =~= Seq::<char>::empty());
        assert(parts.push(Seq::<char>::empty()) =~= seq![Seq::<char>::empty()]);
    }
    while i < n
        invariant
            n == mac_str@.len(),
            start <= i <= n,
            parts.len() == bounds@.len(),
            forall|k: int|
                0 <= k < bounds@.len() ==> (#[trigger] bounds@[k]).0 <= bounds@[k].1 <= n && parts[k]
                    == mac_str@.subrange(bounds@[k].0 as int, bounds@[k].1 as int),
            parts.push(mac_str@.subrange(start as int, i as int)) == split_dash(mac_str@.take(i as int)),
        decreases n - i,
    {
        let c = mac_str.get_char(i);
        proof {
            assert(mac_str@.take(i + 1).drop_last() =~= mac_str@.take(i as int));
            assert(mac_str@.take(i + 1).last() == c);
        }
        if c == '-' {
            proof {
                parts = parts.push(mac_str@.subrange(start as int, i as int));
                assert(mac_str@.subrange(i + 1, i + 1) =~= Seq::<char>::empty());
            }
            bounds.push((start, i));
            start = i + 1;
        } else {
            proof {
                assert(mac_str@.subrange(start as int, i + 1) =~= mac_str@.subrange(start as int, i as int).push(c));
                let p = parts.push(mac_str@.subrange(start as int, i as int));
                assert(parts.push(mac_str@.subrange(start as int, i + 1)) =~= p.update(p.len() - 1, p.last().push(c)));
            }
        }
        i = i + 1;
    }
    proof {
        assert(mac_str@.take(n as int) =~= mac_str@);
    }
    bounds.push((start, n));
    let ghost ps = parts.push(mac_str@.subrange(start as int, n as int));
    if bounds.len() != 16 {
        return Err(Errno::EINVAL);
    }
    let mut mac: Mac = [0u8; 16];
    let mut k: usize = 0;
    while k < 16
        invariant
            bounds@.len() == 16,
            ps == split_dash(mac_str@),
            ps.len() == 16,
            n == mac_str@.len(),
            forall|j: int|
                0 <= j < 16 ==> (#[trigger] bounds@[j]).0 <= bounds@[j].1 <= n && ps[j]
                    == mac_str@.subrange(bounds@[j].0 as int, bounds@[j].1 as int),
            k <= 16,
            mac@.len() == 16,
            forall|j: int| 0 <= j < k ==> (#[trigger] spec_parse_num(ps[j], 16, 255)) is Some && mac@[j]
                == spec_parse_num(ps[j], 16, 255)->Some_0 as u8,
        decreases 16 - k,
    {
        let (a, b) = bounds[k];
        match parse_num(mac_str, a, b, 16, 255) {
            None => {
                proof {
                    assert(!all_hex_bytes(ps));
                }
                return Err(Errno::EINVAL);
            },
            Some(v) => {
                let ghost old_mac = mac@;
                mac[k] = v as u8;
                proof {
                    assert(ps[k as int] == mac_str@.subrange(a as int, b as int));
                    let x = spec_parse_num(ps[k as int], 16, 255);
                    assert(x is Some);
                    assert(x->Some_0 <= 255);
                    assert(v == x->Some_0);
                    assert(mac@[k as int] == x->Some_0 as u8);
                    assert forall|j: int| 0 <= j < k implies mac@[j] == old_mac[j] by {}
                }
            },
        }
        k = k + 1;
    }
    proof {
        assert(mac@ =~= Seq::new(16, |j: int| spec_parse_num(ps[j], 16, 255)->Some_0 as u8));
    }
    Ok(mac)
}

/// The resource limits, as given in the configuration.
pub struct InputConfigResourceLimits {
    pub user_space_size: String,
}

/// The process defaults, as given in the configuration.
pub struct InputConfigProcess {
    pub default_stack_size: String,
    pub default_heap_size: String,
    pub default_mmap_size: String,
}

/// The environment, as given in the configuration.
pub struct InputConfigEnv {
    pub default: Vec<String>,
    pub untrusted: Vec<String>,
}

/// A mount, as given in the configuration.
pub struct InputConfigMount {
    pub type_: String,
    pub target: String,
    pub source: Option<String>,
    pub options: InputConfigMountOptions,
}

/// The options of a mount, as given in the configuration.
pub struct InputConfigMountOptions {
    pub integrity_only: bool,
    pub mac: Option<String>,
    pub layers: Option<Vec<InputConfigMount>>,
    pub temporary: bool,
}

/// The networking section, as given in the configuration.
pub struct InputConfigNet {
    pub host_paths: Vec<String>,
}

/// The whole configuration, as given.
pub struct InputConfig {
    pub resource_limits: InputConfigResourceLimits,
    pub process: InputConfigProcess,
    pub env: InputConfigEnv,
    pub entry_points: Vec<String>,
    pub mount: Vec<InputConfigMount>,
    pub networking: InputConfigNet,
}

/// The resource limits.
pub struct ConfigResourceLimits {
    pub user_space_size: usize,
}

/// The sizes that a new process gets by default.
pub struct ConfigProcess {
    pub default_stack_size: usize,
    pub default_heap_size: usize,
    pub default_mmap_size: usize,
}

/// The environment variables: those set by default, and the names that
/// may come from outside.
pub struct ConfigEnv {
    pub default: Vec<String>,
    pub untrusted: Vec<String>,
}

/// The kinds of file system that can be mounted.
#[derive(Clone, Copy, Debug, PartialEq, Eq, Structural)]
#[allow(non_camel_case_types)]
pub enum ConfigMountFsType {
    TYPE_SEFS,
    TYPE_HOSTFS,
    TYPE_RAMFS,
    TYPE_UNIONFS,
}

/// A mount.
pub struct ConfigMount {
    pub type_: ConfigMountFsType,
    pub target: String,
    pub source: Option<String>,
    pub options: ConfigMountOptions,
}

/// The options of a mount.
pub struct ConfigMountOptions {
    pub integrity_only: bool,
    pub mac: Option<Mac>,
    pub layers: Option<Vec<ConfigMount>>,
    pub temporary: bool,
}

/// The networking section: the Unix paths that belong to the host.
pub struct ConfigNet {
    pub host_paths: Vec<String>,
}

/// The whole configuration.
pub struct Config {
    pub resource_limits: ConfigResourceLimits,
    pub process: ConfigProcess,
    pub env: ConfigEnv,
    pub entry_points: Vec<String>,
    pub mount: Vec<ConfigMount>,
    pub networking: ConfigNet,
}

/// A copy of each string of `v`.
fn copy_strings(v: &Vec<String>) -> (r: Vec<String>)
    ensures
        r@ == v@,
{
    let mut out: Vec<String> = Vec::new();
    let mut i: usize = 0;
    while i < v.len()
        invariant
            i <= v@.len(),
            out@ == v@.take(i as int),
        decreases v@.len() - i,
    {
        out.push(v[i].clone());
        i = i + 1;
        proof {
            assert(out@ =~= v@.take(i as int));
        }
    }
    proof {
        assert(v@.take(i as int) =~= v@);
    }
    out
}

/// Whether `s` begins with `/`.
pub open spec fn is_absolute(s: Seq<char>) -> bool {
    s.len() > 0 && s[0] == '/'
}

/// Whether `s` begins with `/`.
fn absolute(s: &String) -> (r: bool)
    ensures
        r == is_absolute(s@),
{
    let t = s.as_str();
    t.unicode_len() > 0 && t.get_char(0) == '/'
}

/// The kind of file system that `t` names, if any.
pub open spec fn spec_fs_type(t: Seq<char>) -> Option<ConfigMountFsType> {
    if t == "sefs"@ {
        Some(ConfigMountFsType::TYPE_SEFS)
    } else if t == "hostfs"@ {
        Some(ConfigMountFsType::TYPE_HOSTFS)
    } else if t == "ramfs"@ {
        Some(ConfigMountFsType::TYPE_RAMFS)
    } else if t == "unionfs"@ {
        Some(ConfigMountFsType::TYPE_UNIONFS)
    } else {
        None
    }
}

impl InputConfigResourceLimits {
    /// The default user space size.
    pub fn get_user_space_size() -> (r: String)
        ensures
            r@ == "128MB"@,
    {
        String::from_str("128MB")
    }
}

impl InputConfigProcess {
    /// The default stack size.
    pub fn get_default_stack_size() -> (r: String)
        ensures
            r@ == "8MB"@,
    {
        String::from_str("8MB")
    }

    /// The default heap size.
    pub fn get_default_heap_size() -> (r: String)
        ensures
            r@ == "16MB"@,
    {
        String::from_str("16MB")
    }

    /// The default mmap size.
    pub fn get_default_mmap_size() -> (r: String)
        ensures
            r@ == "32MB"@,
    {
        String::from_str("32MB")
    }
}

impl Default for InputConfigResourceLimits {
    fn default() -> (r: InputConfigResourceLimits)
        ensures
            r.user_space_size@ == "128MB"@,
    {
        InputConfigResourceLimits { user_space_size: InputConfigResourceLimits::get_user_space_size() }
    }
}

impl Default for InputConfigProcess {
    fn default() -> (r: InputConfigProcess)
        ensures
            r.default_stack_size@ == "8MB"@,
            r.default_heap_size@ == "16MB"@,
            r.default_mmap_size@ == "32MB"@,
    {
        InputConfigProcess {
            default_stack_size: InputConfigProcess::get_default_stack_size(),
            default_heap_size: InputConfigProcess::get_default_heap_size(),
            default_mmap_size: InputConfigProcess::get_default_mmap_size(),
        }
    }
}

impl Default for InputConfigEnv {
    fn default() -> (r: InputConfigEnv)
        ensures
            r.default@.len() == 0,
            r.untrusted@.len() == 0,
    {
        InputConfigEnv { default: Vec::new(), untrusted: Vec::new() }
    }
}

impl Default for InputConfigNet {
    fn default() -> (r: InputConfigNet)
        ensures
            r.host_paths@.len() == 0,
    {
        InputConfigNet { host_paths: Vec::new() }
    }
}

impl Default for InputConfigMountOptions {
    fn default() -> (r: InputConfigMountOptions)
        ensures
            !r.integrity_only && r.mac is None && r.layers is None && !r.temporary,
    {
        InputConfigMountOptions { integrity_only: false, mac: None, layers: None, temporary: false }
    }
}

impl ConfigResourceLimits {
    /// The limits, with the user space size parsed as a memory size.
    pub fn from_input(input: &InputConfigResourceLimits) -> (r: Result<ConfigResourceLimits, Errno>)
        ensures
            match spec_memory_size(input.user_space_size@) {
                Some(v) => r matches Ok(c) && c.user_space_size == v,
                None => r == Err::<ConfigResourceLimits, Errno>(Errno::EINVAL),
            },
    {
        match parse_memory_size(input.user_space_size.as_str()) {
            Ok(user_space_size) => Ok(ConfigResourceLimits { user_space_size }),
            Err(e) => Err(e),
        }
    }
}

impl ConfigProcess {
    /// The process defaults, each parsed as a memory size.
    pub fn from_input(input: &InputConfigProcess) -> (r: Result<ConfigProcess, Errno>)
        ensures
            (spec_memory_size(input.default_stack_size@) is Some && spec_memory_size(input.default_heap_size@) is Some
                && spec_memory_size(input.default_mmap_size@) is Some) <==> r is Ok,
            r is Err ==> r == Err::<ConfigProcess, Errno>(Errno::EINVAL),
            r matches Ok(c) ==> Some(c.default_stack_size as int) == spec_memory_size(input.default_stack_size@)
                && Some(c.default_heap_size as int) == spec_memory_size(input.default_heap_size@)
                && Some(c.default_mmap_size as int) == spec_memory_size(input.default_mmap_size@),
    {
        let default_stack_size = match parse_memory_size(input.default_stack_size.as_str()) {
            Ok(v) => v,
            Err(e) => return Err(e),
        };
        let default_heap_size = match parse_memory_size(input.default_heap_size.as_str()) {
            Ok(v) => v,
            Err(e) => return Err(e),
        };
        let default_mmap_size = match parse_memory_size(input.default_mmap_size.as_str()) {
            Ok(v) => v,
            Err(e) => return Err(e),
        };
        Ok(ConfigProcess { default_stack_size, default_heap_size, default_mmap_size })
    }
}

impl ConfigEnv {
    /// The environment, copied.
    pub fn from_input(input: &InputConfigEnv) -> (r: Result<ConfigEnv, Errno>)
        ensures
            r matches Ok(c) && c.default@ == input.default@ && c.untrusted@ == input.untrusted@,
    {
        Ok(ConfigEnv { default: copy_strings(&input.default), untrusted: copy_strings(&input.untrusted) })
    }
}

impl ConfigNet {
    /// The networking section, copied.
    pub fn from_input(input: &InputConfigNet) -> (r: ConfigNet)
        ensures
            r.host_paths@ == input.host_paths@,
    {
        ConfigNet { host_paths: copy_strings(&input.host_paths) }
    }
}

impl ConfigMount {
    /// A mount: the type must name a known file system and the target must
    /// be absolute (`EINVAL` otherwise); the options must be valid too.
    pub fn from_input(input: &InputConfigMount) -> (r: Result<ConfigMount, Errno>)
        ensures
            spec_fs_type(input.type_@) is None ==> r == Err::<ConfigMount, Errno>(Errno::EINVAL),
            !is_absolute(input.target@) ==> r == Err::<ConfigMount, Errno>(Errno::EINVAL),
            r is Err ==> r == Err::<ConfigMount, Errno>(Errno::EINVAL),
            r matches Ok(m) ==> Some(m.type_) == spec_fs_type(input.type_@) && m.target@ == input.target@
                && m.source == input.source && options_match(input.options, m.options),
        decreases input,
    {
        let type_ = if input.type_ == String::from_str("sefs") {
            ConfigMountFsType::TYPE_SEFS
        } else if input.type_ == String::from_str("hostfs") {
            ConfigMountFsType::TYPE_HOSTFS
        } else if input.type_ == String::from_str("ramfs") {
            ConfigMountFsType::TYPE_RAMFS
        } else if input.type_ == String::from_str("unionfs") {
            ConfigMountFsType::TYPE_UNIONFS
        } else {
            return Err(Errno::EINVAL);
        };
        if !absolute(&input.target) {
            return Err(Errno::EINVAL);
        }
        let target = input.target.clone();
        let source = input.source.clone();
        let options = match ConfigMountOptions::from_input(&input.options) {
            Ok(o) => o,
            Err(e) => return Err(e),
        };
        Ok(ConfigMount { type_, target, source, options })
    }
}

/// `o` is what the options `i` give: the flags kept, the MAC parsed, and
/// one mount for each layer.
pub open spec fn options_match(i: InputConfigMountOptions, o: ConfigMountOptions) -> bool {
    &&& o.integrity_only == i.integrity_only
    &&& o.temporary == i.temporary
    &&& !i.integrity_only ==> o.mac is None
    &&& i.integrity_only ==> (i.mac matches Some(m) && spec_mac(m@) is Some && o.mac is Some
        && o.mac->Some_0@ == spec_mac(m@)->Some_0)
    &&& i.layers is Some <==> o.layers is Some
    &&& i.layers matches Some(l) ==> o.layers->Some_0@.len() == l@.len()
}

impl ConfigMountOptions {
    /// The options: with `integrity_only` a MAC must be there and parse
    /// (`EINVAL` otherwise); each layer must be a valid mount.
    pub fn from_input(input: &InputConfigMountOptions) -> (r: Result<ConfigMountOptions, Errno>)
        ensures
            input.integrity_only && input.mac is None ==> r == Err::<ConfigMountOptions, Errno>(Errno::EINVAL),
            input.integrity_only && input.mac is Some && spec_mac(input.mac->Some_0@) is None ==> r == Err::<
                ConfigMountOptions,
                Errno,
            >(Errno::EINVAL),
            r is Err ==> r == Err::<ConfigMountOptions, Errno>(Errno::EINVAL),
            r matches Ok(o) ==> options_match(*input, o),
        decreases input,
    {
        let mac = if !input.integrity_only {
            None
        } else {
            match &input.mac {
                None => return Err(Errno::EINVAL),
                Some(m) => match parse_mac(m.as_str()) {
                    Ok(a) => Some(a),
                    Err(e) => return Err(e),
                },
            }
        };
        let layers = match &input.layers {
            None => None,
            Some(ls) => {
                let mut out: Vec<ConfigMount> = Vec::new();
                let mut i: usize = 0;
                while i < ls.len()
                    invariant
                        i <= ls@.len(),
                        out@.len() == i,
                        input.layers == Some(*ls),
                    decreases ls@.len() - i,
                {
                    proof {
                        vstd::std_specs::vec::axiom_vec_index_decreases(*ls, i as int);
                        assert(decreases_to!(*input => input.layers));
                        assert(input.layers is Some && input.layers->Some_0 == *ls);
                        assert(decreases_to!(input.layers => input.layers->Some_0));
                        assert(decreases_to!(*ls => ls[i as int]));
                    }
                    match ConfigMount::from_input(&ls[i]) {
                        Ok(m) => out.push(m),
                        Err(e) => return Err(e),
                    }
                    i = i + 1;
                }
                Some(out)
            },
        };
        Ok(ConfigMountOptions { integrity_only: input.integrity_only, mac, layers, temporary: input.temporary })
    }
}

impl Config {
    /// The configuration: every section must be valid, and every entry
    /// point absolute (`EINVAL` otherwise); the first failure is reported.
    pub fn from_input(input: &InputConfig) -> (r: Result<Config, Errno>)
        ensures
            r is Err ==> r == Err::<Config, Errno>(Errno::EINVAL),
            (exists|i: int| 0 <= i < input.entry_points@.len() && !is_absolute(#[trigger] input.entry_points@[i]@))
                ==> r is Err,
            r matches Ok(c) ==> c.entry_points@ == input.entry_points@ && c.mount@.len() == input.mount@.len()
                && c.networking.host_paths@ == input.networking.host_paths@
                && c.env.default@ == input.env.default@ && c.env.untrusted@ == input.env.untrusted@
                && Some(c.resource_limits.user_space_size as int) == spec_memory_size(input.resource_limits.user_space_size@),
    {
        let resource_limits = match ConfigResourceLimits::from_input(&input.resource_limits) {
            Ok(v) => v,
            Err(e) => return Err(e),
        };
        let process = match ConfigProcess::from_input(&input.process) {
            Ok(v) => v,
            Err(e) => return Err(e),
        };
        let env = match ConfigEnv::from_input(&input.env) {
            Ok(v) => v,
            Err(e) => return Err(e),
        };
        let mut entry_points: Vec<String> = Vec::new();
        let mut i: usize = 0;
        while i < input.entry_points.len()
            invariant
                i <= input.entry_points@.len(),
                entry_points@ == input.entry_points@.take(i as int),
                forall|j: int| 0 <= j < i ==> is_absolute(#[trigger] input.entry_points@[j]@),
            decreases input.entry_points@.len() - i,
        {
            if !absolute(&input.entry_points[i]) {
                return Err(Errno::EINVAL);
            }
            entry_points.push(input.entry_points[i].clone());
            i = i + 1;
            proof {
                assert(entry_points@ =~= input.entry_points@.take(i as int));
            }
        }
        proof {
            assert(input.entry_points@.take(i as int) =~= input.entry_points@);
        }
        let mut mount: Vec<ConfigMount> = Vec::new();
        let mut k: usize = 0;
        while k < input.mount.len()
            invariant
                k <= input.mount@.len(),
                mount@.len() == k,
            decreases input.mount@.len() - k,
        {
            match ConfigMount::from_input(&input.mount[k]) {
                Ok(m) => mount.push(m),
                Err(e) => return Err(e),
            }
            k = k + 1;
        }
        let networking = ConfigNet::from_input(&input.networking);
        Ok(Config { resource_limits, process, env, entry_points, mount, networking })
    }
}

} // verus!
