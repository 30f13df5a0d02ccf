//! An ordered header map: distinct lower-case names, one value each, kept in
//! the order in which the names were first inserted.

use vstd::prelude::*;

use crate::text::{ascii_lowercase, copy_string, str_eq, to_ascii_lowercase};

verus! {

/// A character that a header name may hold (RFC 7230 token characters and `"`).
pub open spec fn is_name_char(c: char) -> bool {
    ('0' <= c <= '9') || ('a' <= c <= 'z') || ('A' <= c <= 'Z') || c == '!' || c == '"' || c
        == '#' || c == '$' || c == '%' || c == '&' || c == '\'' || c == '*' || c == '+' || c
        == '-' || c == '.' || c == '^' || c == '_' || c == '`' || c == '|' || c == '~'
}

/// A valid header name: 1 to 65535 name characters.
pub open spec fn is_header_name(s: Seq<char>) -> bool {
    0 < s.len() <= 65535 && forall|i: int| 0 <= i < s.len() ==> is_name_char(#[trigger] s[i])
}

/// A character that a header value may hold: a tab, or anything from a space
/// on but DEL.
pub open spec fn is_value_char(c: char) -> bool {
    c == '\t' || ((c as u32) >= 32 && (c as u32) != 127)
}

/// A valid header value.
pub open spec fn is_header_value(s: Seq<char>) -> bool {
    forall|i: int| 0 <= i < s.len() ==> is_value_char(#[trigger] s[i])
}

/// A character that reads back as text from a header value: a tab or a
/// printable ASCII character.
pub open spec fn is_visible_char(c: char) -> bool {
    c == '\t' || (32 <= (c as u32) < 127)
}

/// A header value that reads back as text.
pub open spec fn is_visible_value(s: Seq<char>) -> bool {
    forall|i: int| 0 <= i < s.len() ==> is_visible_char(#[trigger] s[i])
}

/// No name occurs twice.
pub open spec fn distinct_names(h: Seq<(Seq<char>, Seq<char>)>) -> bool {
    forall|i: int, j: int| 0 <= i < h.len() && 0 <= j < h.len() && i != j ==> h[i].0 != h[j].0
}

/// Whether `n` is one of the names.
pub open spec fn has_name(h: Seq<(Seq<char>, Seq<char>)>, n: Seq<char>) -> bool {
    exists|i: int| 0 <= i < h.len() && h[i].0 == n
}

/// `h` after setting `n` to `v`: the value of an existing entry is replaced
/// in place, a new name goes at the end.
pub open spec fn header_insert(h: Seq<(Seq<char>, Seq<char>)>, n: Seq<char>, v: Seq<char>) -> Seq<
    (Seq<char>, Seq<char>),
> {
    if has_name(h, n) {
        let i = choose|i: int| 0 <= i < h.len() && h[i].0 == n;
        h.update(i, (n, v))
    } else {
        h.push((n, v))
    }
}

/// The value under `n`, if any.
pub open spec fn header_get(h: Seq<(Seq<char>, Seq<char>)>, n: Seq<char>) -> Option<Seq<char>> {
    if has_name(h, n) {
        let i = choose|i: int| 0 <= i < h.len() && h[i].0 == n;
        Some(h[i].1)
    } else {
        None
    }
}

/// The entries, each as (name, value).
pub open spec fn entry_views(v: Seq<(String, String)>) -> Seq<(Seq<char>, Seq<char>)> {
    v.map_values(|e: (String, String)| (e.0@, e.1@))
}

/// The position of the name `n` among `entries`, if present.
fn find_name(entries: &Vec<(String, String)>, n: &str) -> (res: Option<usize>)
    ensures
        match res {
            Some(i) => i < entries@.len() && entry_views(entries@)[i as int].0 == n@,
            None => !has_name(entry_views(entries@), n@),
        },
{
    let ghost h = entry_views(entries@);
    for i in 0..entries.len()
        invariant
            h == entry_views(entries@),
            h.len() == entries@.len(),
            forall|j: int| 0 <= j < i ==> h[j].0 != n@,
    {
        if str_eq(entries[i].0.as_str(), n) {
            proof {
                assert(h[i as int].0 == entries@[i as int].0@);
            }
            return Some(i);
        }
        proof {
            assert(h[i as int].0 == entries@[i as int].0@);
        }
    }
    None
}

/// Setting a name and reading it back gives the value set; every other name
/// reads as before; names stay distinct.
pub proof fn lemma_insert_get(h: Seq<(Seq<char>, Seq<char>)>, n: Seq<char>, v: Seq<char>, m: Seq<char>)
    requires
        distinct_names(h),
    ensures
        header_get(header_insert(h, n, v), n) == Some(v),
        m != n ==> header_get(header_insert(h, n, v), m) == header_get(h, m),
        distinct_names(header_insert(h, n, v)),
        has_name(header_insert(h, n, v), m) <==> (m == n || has_name(h, m)),
{
    let r = header_insert(h, n, v);
    if has_name(h, n) {
        let i = choose|i: int| 0 <= i < h.len() && h[i].0 == n;
        assert(r == h.update(i, (n, v)));
        assert forall|a: int, b: int| 0 <= a < r.len() && 0 <= b < r.len() && a != b implies r[a].0
            != r[b].0 by {
            assert(r[a].0 == h[a].0 && r[b].0 == h[b].0);
        }
        assert(r[i].0 == n);
        let k = choose|k: int| 0 <= k < r.len() && r[k].0 == n;
        assert(k == i);
        if m != n {
            if has_name(h, m) {
                let j = choose|j: int| 0 <= j < h.len() && h[j].0 == m;
                assert(r[j].0 == m);
                let j2 = choose|j2: int| 0 <= j2 < r.len() && r[j2].0 == m;
                assert(j2 == j);
            } else {
                assert forall|j: int| 0 <= j < r.len() implies r[j].0 != m by {
                    assert(r[j].0 == h[j].0);
                }
            }
        }
        if has_name(r, m) {
            let j = choose|j: int| 0 <= j < r.len() && r[j].0 == m;
            if j != i {
                assert(h[j].0 == m);
            }
        }
        if has_name(h, m) {
            let j = choose|j: int| 0 <= j < h.len() && h[j].0 == m;
            assert(r[j].0 == m);
        }
    } else {
        assert(r == h.push((n, v)));
        assert(r[h.len() as int].0 == n);
        let k = choose|k: int| 0 <= k < r.len() && r[k].0 == n;
        if k < h.len() {
            assert(h[k].0 == n);
        }
        assert forall|a: int, b: int| 0 <= a < r.len() && 0 <= b < r.len() && a != b implies r[a].0
            != r[b].0 by {
            if a < h.len() && b < h.len() {
                assert(r[a].0 == h[a].0 && r[b].0 == h[b].0);
            } else if a < h.len() {
                assert(r[a].0 == h[a].0);
            } else if b < h.len() {
                assert(r[b].0 == h[b].0);
            }
        }
        if m != n {
            if has_name(h, m) {
                let j = choose|j: int| 0 <= j < h.len() && h[j].0 == m;
                assert(r[j].0 == m);
                let j2 = choose|j2: int| 0 <= j2 < r.len() && r[j2].0 == m;
                assert(j2 == j);
            } else {
                assert forall|j: int| 0 <= j < r.len() implies r[j].0 != m by {
                    if j < h.len() {
                        assert(r[j].0 == h[j].0);
                    }
                }
            }
        }
        if has_name(r, m) {
            let j = choose|j: int| 0 <= j < r.len() && r[j].0 == m;
            if j < h.len() {
                assert(h[j].0 == m);
            }
        }
        if has_name(h, m) {
            let j = choose|j: int| 0 <= j < h.len() && h[j].0 == m;
            assert(r[j].0 == m);
        }
    }
}

/// Headers of a request.
pub struct Headers {
    entries: Vec<(String, String)>,
}

impl View for Headers {
    type V = Seq<(Seq<char>, Seq<char>)>;

    closed spec fn view(&self) -> Seq<(Seq<char>, Seq<char>)> {
        entry_views(self.entries@)
    }
}

/// Every name is a valid lower-case name, every value a valid value, and no
/// name occurs twice.
pub open spec fn headers_wf(h: Seq<(Seq<char>, Seq<char>)>) -> bool {
    &&& distinct_names(h)
    &&& forall|i: int|
        0 <= i < h.len() ==> {
            &&& is_header_name(#[trigger] h[i].0)
            &&& ascii_lowercase(h[i].0) == h[i].0
            &&& is_header_value(h[i].1)
        }
}

impl Headers {
    /// The entries are well formed (kept by every method).
    #[verifier::type_invariant]
    pub open spec fn inv(self) -> bool {
        headers_wf(self@)
    }

    /// No headers.
    pub fn new() -> (res: Headers)
        ensures
            res@ == Seq::<(Seq<char>, Seq<char>)>::empty(),
    {
        let res = Headers { entries: Vec::new() };
        proof {
            assert(res@ =~= Seq::<(Seq<char>, Seq<char>)>::empty());
        }
        res
    }

    /// The number of names.
    pub fn len(&self) -> (res: usize)
        ensures
            res == self@.len(),
    {
        self.entries.len()
    }

    /// Sets the header `name` (case-insensitive) to `value`, as
    /// `HeaderMap::insert` does.
    pub fn insert(&mut self, name: &str, value: &str)
        requires
            is_header_name(name@),
            is_header_value(value@),
        ensures
            final(self)@ == header_insert(old(self)@, ascii_lowercase(name@), value@),
    {
        proof {
            use_type_invariant(&*self);
        }
        let lname = to_ascii_lowercase(name);
        let ghost h = self@;
        let ghost n = lname@;
        proof {
            assert forall|k: int| 0 <= k < n.len() implies is_name_char(#[trigger] n[k]) by {
                assert(is_name_char(name@[k]));
            }
            assert(ascii_lowercase(n) =~= n);
        }
        let v = copy_string(value);
        let mut entries: Vec<(String, String)> = Vec::new();
        std::mem::swap(&mut entries, &mut self.entries);
        match find_name(&entries, lname.as_str()) {
            Some(i) => {
                proof {
                    let k = choose|k: int| 0 <= k < h.len() && h[k].0 == n;
                    assert(k == i);
                }
                entries.set(i, (lname, v));
                proof {
                    assert(entry_views(entries@) =~= h.update(i as int, (n, value@)));
                }
            },
            None => {
                entries.push((lname, v));
                proof {
                    assert(entry_views(entries@) =~= h.push((n, value@)));
                }
            },
        }
        self.entries = entries;
    }

    /// The value under `name` (case-insensitive), if any.
    pub fn get(&self, name: &str) -> (res: Option<String>)
        ensures
            match res {
                Some(v) => header_get(self@, ascii_lowercase(name@)) == Some(v@),
                None => header_get(self@, ascii_lowercase(name@)) is None,
            },
    {
        proof {
            use_type_invariant(self);
        }
        let lname = to_ascii_lowercase(name);
        match find_name(&self.entries, lname.as_str()) {
            Some(i) => {
                proof {
                    let k = choose|k: int| 0 <= k < self@.len() && self@[k].0 == lname@;
                    assert(k == i);
                    assert(self@[i as int].1 == self.entries@[i as int].1@);
                }
                Some(copy_string(self.entries[i].1.as_str()))
            },
            None => None,
        }
    }

    /// The (name, value) entries, in order.
    pub fn entries(&self) -> (res: Vec<(String, String)>)
        ensures
            entry_views(res@) == self@,
    {
        let mut out: Vec<(String, String)> = Vec::new();
        for i in 0..self.entries.len()
            invariant
                out@.len() == i,
                i <= self.entries@.len(),
                entry_views(out@) == entry_views(self.entries@).take(i as int),
        {
            let e = (copy_string(self.entries[i].0.as_str()), copy_string(self.entries[i].1.as_str()));
            out.push(e);
            proof {
                assert(entry_views(out@) =~= entry_views(self.entries@).take(i + 1));
            }
        }
        proof {
            assert(entry_views(self.entries@).take(self.entries@.len() as int) =~= entry_views(self.entries@));
        }
        out
    }
}

} // verus!
