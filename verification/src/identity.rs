//! Node identities: how a sensor's hardware address becomes the id and the
//! display name under which the registry knows it.

use vstd::prelude::*;

verus! {

/// The characters of `s` with every `':'` separator removed, in order.
pub open spec fn strip_colons(s: Seq<char>) -> Seq<char>
    decreases s.len(),
{
    if s.len() == 0 {
        Seq::<char>::empty()
    } else if s.last() == ':' {
        strip_colons(s.drop_last())
    } else {
        strip_colons(s.drop_last()).push(s.last())
    }
}

/// Derive a registry node id from a hardware address by stripping the
/// `':'` separators, as in `"AB:CD" -> "ABCD"`.
pub fn node_id_for(addr: &str) -> (r: String)
    ensures
        r@ == strip_colons(addr@),
{
    let len: usize = addr.unicode_len();
    let mut out: String = String::new();
    let mut i: usize = 0;
    while i < len
        invariant
            len == addr@.len(),
            i <= len,
            out@ == strip_colons(addr@.subrange(0, i as int)),
        decreases len - i,
    {
        let c = addr.get_char(i);
        if c != ':' {
            let piece = addr.substring_char(i, i + 1);
            out.append(piece);
        }
        proof {
            assert(addr@.subrange(0, i + 1).drop_last() =~= addr@.subrange(0, i as int));
            assert(addr@.subrange(0, i + 1).last() == addr@[i as int]);
        }
        i = i + 1;
    }
    proof {
        assert(addr@.subrange(0, len as int) =~= addr@);
    }
    out
}

/// The first `n` characters of `s` follow the shape of a colon-separated
/// hardware address: every third character (positions 2, 5, 8, ...) is a
/// `':'` separator and no other character is.
pub open spec fn sep_pattern(s: Seq<char>, n: int) -> bool {
    forall|i: int| 0 <= i < n ==> ((i % 3 == 2) <==> s[i] == ':')
}

/// `s` is a full colon-separated hardware address: six two-character groups.
pub open spec fn mac_shaped(s: Seq<char>) -> bool {
    s.len() == 17 && sep_pattern(s, 17)
}

/// Where each character of a separator-shaped prefix lands after stripping:
/// the prefix of length `n` strips to `n - n / 3` characters, and the
/// character at stripped position `j` came from position `j + j / 2`.
pub proof fn lemma_strip_prefix(s: Seq<char>, n: int)
    requires
        0 <= n <= s.len(),
        sep_pattern(s, n),
    ensures
        strip_colons(s.subrange(0, n)).len() == n - n / 3,
        forall|j: int|
            0 <= j < n - n / 3 ==> #[trigger] strip_colons(s.subrange(0, n))[j] == s[j + j / 2],
    decreases n,
{
    if n == 0 {
        assert(s.subrange(0, 0) =~= Seq::<char>::empty());
    } else {
        lemma_strip_prefix(s, n - 1);
        let p = s.subrange(0, n);
        let q = s.subrange(0, n - 1);
        assert(p.drop_last() =~= q);
        assert(p.last() == s[n - 1]);
        if (n - 1) % 3 == 2 {
            assert(s[n - 1] == ':');
            assert(strip_colons(p) == strip_colons(q));
            assert(n / 3 == (n - 1) / 3 + 1);
        } else {
            assert(s[n - 1] != ':');
            assert(strip_colons(p) == strip_colons(q).push(s[n - 1]));
            assert(n / 3 == (n - 1) / 3);
            let j = (n - 1) - (n - 1) / 3;
            assert(j + j / 2 == n - 1);
        }
    }
}

/// Node id derivation never collides: two distinct well-shaped hardware
/// addresses strip to two distinct node ids.
pub proof fn lemma_node_id_collision_free(a: Seq<char>, b: Seq<char>)
    requires
        mac_shaped(a),
        mac_shaped(b),
        a != b,
    ensures
        strip_colons(a) != strip_colons(b),
{
    lemma_strip_prefix(a, 17);
    lemma_strip_prefix(b, 17);
    assert(a.subrange(0, 17) =~= a);
    assert(b.subrange(0, 17) =~= b);
    assert(exists|i: int| 0 <= i < 17 && a[i] != b[i]) by {
        if forall|i: int| 0 <= i < 17 ==> a[i] == b[i] {
            assert(a =~= b);
        }
    }
    let i = choose|i: int| 0 <= i < 17 && a[i] != b[i];
    assert(i % 3 != 2);
    let j = i - i / 3;
    assert(j + j / 2 == i);
    assert(0 <= j < 17 - 17int / 3);
    assert(strip_colons(a)[j] == a[i]);
    assert(strip_colons(b)[j] == b[i]);
}

/// Node id derivation is a pure function of the address alone: equal
/// addresses always strip to equal node ids, on every call.
pub proof fn lemma_node_id_stable(a: Seq<char>, b: Seq<char>)
    requires
        a == b,
    ensures
        strip_colons(a) == strip_colons(b),
{
}

/// The configured mapping from hardware addresses to display names,
/// in the order its entries were added.
pub struct NameMap {
    pub entries: Vec<(String, String)>,
}

impl View for NameMap {
    type V = Seq<(Seq<char>, Seq<char>)>;

    open spec fn view(&self) -> Seq<(Seq<char>, Seq<char>)> {
        self.entries@.map_values(|p: (String, String)| (p.0@, p.1@))
    }
}

/// The name the earliest entry of `m` with key `key` maps to, if any.
pub open spec fn assoc_lookup(m: Seq<(Seq<char>, Seq<char>)>, key: Seq<char>) -> Option<Seq<char>>
    decreases m.len(),
{
    if m.len() == 0 {
        None
    } else if m.first().0 == key {
        Some(m.first().1)
    } else {
        assoc_lookup(m.drop_first(), key)
    }
}

/// The display name for `addr` under the mapping `m`: the configured name if
/// the address is known, else the address itself.
pub open spec fn display_name_spec(m: Seq<(Seq<char>, Seq<char>)>, addr: Seq<char>) -> Seq<char> {
    match assoc_lookup(m, addr) {
        Some(n) => n,
        None => addr,
    }
}

impl NameMap {
    /// A mapping with no entries.
    pub fn empty() -> (m: NameMap)
        ensures
            m@ == Seq::<(Seq<char>, Seq<char>)>::empty(),
    {
        let m = NameMap { entries: Vec::new() };
        proof {
            assert(m@ =~= Seq::<(Seq<char>, Seq<char>)>::empty());
        }
        m
    }

    /// Append one `address -> name` entry.
    pub fn add(&mut self, addr: String, name: String)
        ensures
            final(self)@ == old(self)@.push((addr@, name@)),
    {
        let ghost prior = self@;
        self.entries.push((addr, name));
        proof {
            assert(self@ =~= prior.push((self.entries@.last().0@, self.entries@.last().1@)));
        }
    }

    /// Look up the configured name for `key`.
    pub fn lookup(&self, key: &String) -> (r: Option<String>)
        ensures
            match r {
                Some(v) => assoc_lookup(self@, key@) == Some(v@),
                None => assoc_lookup(self@, key@) is None,
            },
    {
        let n = self.entries.len();
        let mut i: usize = 0;
        proof {
            assert(self@.skip(0) =~= self@);
        }
        while i < n
            invariant
                n == self.entries.len(),
                i <= n,
                assoc_lookup(self@, key@) == assoc_lookup(self@.skip(i as int), key@),
            decreases n - i,
        {
            proof {
                assert(self@.skip(i as int).first() == self@[i as int]);
                assert(self@[i as int] == (self.entries@[i as int].0@, self.entries@[i as int].1@));
            }
            if self.entries[i].0 == *key {
                return Some(self.entries[i].1.clone());
            }
            proof {
                assert(self@.skip(i as int).drop_first() =~= self@.skip(i + 1));
            }
            i = i + 1;
        }
        proof {
            assert(self@.skip(n as int) =~= Seq::<(Seq<char>, Seq<char>)>::empty());
        }
        None
    }

    /// Is `key` a known hardware address?
    pub fn contains_key(&self, key: &String) -> (r: bool)
        ensures
            r == (assoc_lookup(self@, key@) is Some),
    {
        self.lookup(key).is_some()
    }
}

/// The identity under which the registry knows a sensor: its node id (the
/// hardware address with separators stripped) and its display name (the
/// configured name if the address is known, else the address itself).
pub fn node_identity(addr: &String, names: &NameMap) -> (r: (String, String))
    ensures
        r.0@ == strip_colons(addr@),
        r.1@ == display_name_spec(names@, addr@),
{
    let node_id = node_id_for(addr.as_str());
    let display = match names.lookup(addr) {
        Some(n) => n,
        None => addr.clone(),
    };
    (node_id, display)
}

/// The position of the first `c` in `s`, if any.
pub open spec fn find_char(s: Seq<char>, c: char) -> Option<int>
    decreases s.len(),
{
    if s.len() == 0 {
        None
    } else if s.first() == c {
        Some(0)
    } else {
        match find_char(s.drop_first(), c) {
            Some(i) => Some(i + 1),
            None => None,
        }
    }
}

pub proof fn lemma_find_char_at(s: Seq<char>, c: char, i: int)
    requires
        0 <= i < s.len(),
        s[i] == c,
        forall|k: int| 0 <= k < i ==> s[k] != c,
    ensures
        find_char(s, c) == Some(i),
    decreases i,
{
    if i > 0 {
        lemma_find_char_at(s.drop_first(), c, i - 1);
    }
}

pub proof fn lemma_find_char_none(s: Seq<char>, c: char)
    requires
        forall|k: int| 0 <= k < s.len() ==> s[k] != c,
    ensures
        find_char(s, c) is None,
    decreases s.len(),
{
    if s.len() > 0 {
        lemma_find_char_none(s.drop_first(), c);
    }
}

/// How many `' '` characters `s` starts with.
pub open spec fn leading_spaces(s: Seq<char>) -> int
    decreases s.len(),
{
    if s.len() == 0 {
        0
    } else if s.first() == ' ' {
        1 + leading_spaces(s.drop_first())
    } else {
        0
    }
}

/// How many `' '` characters `s` ends with.
pub open spec fn trailing_spaces(s: Seq<char>) -> int
    decreases s.len(),
{
    if s.len() == 0 {
        0
    } else if s.last() == ' ' {
        1 + trailing_spaces(s.drop_last())
    } else {
        0
    }
}

/// `s` with its leading and trailing `' '` characters removed.
pub open spec fn trimmed(s: Seq<char>) -> Seq<char> {
    if leading_spaces(s) == s.len() {
        Seq::<char>::empty()
    } else {
        s.subrange(leading_spaces(s), s.len() - trailing_spaces(s))
    }
}

proof fn lemma_leading_spaces_eq(s: Seq<char>, k: int)
    requires
        0 <= k <= s.len(),
        forall|j: int| 0 <= j < k ==> s[j] == ' ',
        k == s.len() || s[k] != ' ',
    ensures
        leading_spaces(s) == k,
    decreases k,
{
    if k == 0 {
    } else {
        assert(s.first() == ' ');
        lemma_leading_spaces_eq(s.drop_first(), k - 1);
    }
}

proof fn lemma_trailing_spaces_eq(s: Seq<char>, t: int)
    requires
        0 <= t <= s.len(),
        forall|j: int| s.len() - t <= j < s.len() ==> s[j] == ' ',
        t == s.len() || s[s.len() - 1 - t] != ' ',
    ensures
        trailing_spaces(s) == t,
    decreases t,
{
    if t == 0 {
    } else {
        assert(s.last() == ' ');
        lemma_trailing_spaces_eq(s.drop_last(), t - 1);
    }
}

/// `s` without its leading and trailing spaces.
fn trim_str(s: &str) -> (r: String)
    ensures
        r@ == trimmed(s@),
{
    let len = s.unicode_len();
    let mut start: usize = 0;
    while start < len && s.get_char(start) == ' '
        invariant
            len == s@.len(),
            start <= len,
            forall|j: int| 0 <= j < start ==> s@[j] == ' ',
        decreases len - start,
    {
        start = start + 1;
    }
    if start == len {
        proof {
            lemma_leading_spaces_eq(s@, len as int);
        }
        return String::new();
    }
    proof {
        lemma_leading_spaces_eq(s@, start as int);
    }
    let mut end: usize = len;
    while end > start && s.get_char(end - 1) == ' '
        invariant
            len == s@.len(),
            start < len,
            s@[start as int] != ' ',
            start < end <= len,
            forall|j: int| end <= j < len ==> s@[j] == ' ',
        decreases end,
    {
        proof {
            assert(s@[end - 1] == ' ');
        }
        end = end - 1;
    }
    proof {
        lemma_trailing_spaces_eq(s@, (len - end) as int);
    }
    s.substring_char(start, end).to_owned()
}

/// Parse one line of the name mapping file, of the shape
/// `hardware-address = display-name`: the text before the first `'='` and
/// the text after it, each with surrounding spaces removed. A line without
/// an `'='` maps to nothing.
pub fn parse_name_line(line: &str) -> (r: Option<(String, String)>)
    ensures
        match find_char(line@, '=') {
            None => r is None,
            Some(i) => r matches Some(kv) && kv.0@ == trimmed(line@.subrange(0, i)) && kv.1@
                == trimmed(line@.subrange(i + 1, line@.len() as int)),
        },
{
    let len = line.unicode_len();
    let mut i: usize = 0;
    while i < len
        invariant
            len == line@.len(),
            i <= len,
            forall|k: int| 0 <= k < i ==> line@[k] != '=',
        decreases len - i,
    {
        if line.get_char(i) == '=' {
            proof {
                lemma_find_char_at(line@, '=', i as int);
            }
            let key = trim_str(line.substring_char(0, i));
            let value = trim_str(line.substring_char(i + 1, len));
            return Some((key, value));
        }
        i = i + 1;
    }
    proof {
        lemma_find_char_none(line@, '=');
    }
    None
}

/// The base topic under which the bridge device publishes:
/// the topic prefix, a separating slash, and the device id.
pub fn device_base(prefix: &str, device_id: &str) -> (r: String)
    ensures
        r@ == prefix@ + "/"@ + device_id@,
{
    let mut r = String::from_str(prefix);
    r.append("/");
    r.append(device_id);
    r
}

} // verus!
