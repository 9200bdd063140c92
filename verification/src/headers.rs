//! A model of an HTTP header map.
//!
//! Entries keep their order. Names are stored in lower case, as HTTP header
//! names are compared without regard to case. A value is `text` when it reads
//! as visible ASCII (what `HeaderValue::to_str` accepts); other values are kept
//! as they decode but are not readable as text.
use vstd::prelude::*;
use crate::text::{chars_of, owned};

verus! {

pub struct HeaderEntry {
    pub name: String,
    pub value: String,
    pub text: bool,
}

pub struct Headers {
    pub entries: Vec<HeaderEntry>,
}

/// An entry as plain values: name, value, and whether the value is text.
pub open spec fn entry_view(e: HeaderEntry) -> (Seq<char>, Seq<char>, bool) {
    (e.name@, e.value@, e.text)
}

impl View for Headers {
    type V = Seq<(Seq<char>, Seq<char>, bool)>;

    open spec fn view(&self) -> Seq<(Seq<char>, Seq<char>, bool)> {
        self.entries@.map_values(|e: HeaderEntry| entry_view(e))
    }
}

/// The first entry named `name`.
pub open spec fn first_entry(h: Seq<(Seq<char>, Seq<char>, bool)>, name: Seq<char>) -> Option<
    (Seq<char>, Seq<char>, bool),
>
    decreases h.len(),
{
    if h.len() == 0 {
        None
    } else if h[0].0 == name {
        Some(h[0])
    } else {
        first_entry(h.drop_first(), name)
    }
}

/// `HeaderMap::get(name)` followed by `to_str().ok()`: the first value of the
/// header if it is text.
pub open spec fn header_text(h: Seq<(Seq<char>, Seq<char>, bool)>, name: Seq<char>) -> Option<
    Seq<char>,
> {
    match first_entry(h, name) {
        Some(e) => if e.2 {
            Some(e.1)
        } else {
            None
        },
        None => None,
    }
}

/// The header is there but its first value is not text (`to_str` fails).
pub open spec fn header_unreadable(h: Seq<(Seq<char>, Seq<char>, bool)>, name: Seq<char>) -> bool {
    match first_entry(h, name) {
        Some(e) => !e.2,
        None => false,
    }
}

/// The text of a header, or the empty sequence when it is missing or not text.
pub open spec fn header_or_empty(h: Seq<(Seq<char>, Seq<char>, bool)>, name: Seq<char>) -> Seq<
    char,
> {
    match header_text(h, name) {
        Some(v) => v,
        None => seq![],
    }
}

/// What `HeaderValue::to_str` accepts: visible ASCII and tab.
pub open spec fn is_visible_text(s: Seq<char>) -> bool {
    forall|i: int|
        0 <= i < s.len() ==> ((32 <= #[trigger] (s[i] as u32) && (s[i] as u32) < 127) || s[i]
            == '\t')
}

/// What `HeaderValue::from_str` accepts: no control characters but tab, and no DEL.
pub open spec fn is_valid_value(s: Seq<char>) -> bool {
    forall|i: int|
        0 <= i < s.len() ==> ((32 <= #[trigger] (s[i] as u32) && (s[i] as u32) != 127) || s[i]
            == '\t')
}

/// `HeaderMap::insert`: every entry named `name` goes, and the new one comes last.
pub open spec fn inserted(h: Seq<(Seq<char>, Seq<char>, bool)>, name: Seq<char>, value: Seq<char>) -> Seq<
    (Seq<char>, Seq<char>, bool),
> {
    removed(h, name).push((name, value, is_visible_text(value)))
}

/// `HeaderMap::remove`: every entry named `name` goes.
pub open spec fn removed(h: Seq<(Seq<char>, Seq<char>, bool)>, name: Seq<char>) -> Seq<
    (Seq<char>, Seq<char>, bool),
> {
    h.filter(other_name(name))
}

/// The entries named `name`, in order (`HeaderMap::get_all`).
pub open spec fn entries_named(h: Seq<(Seq<char>, Seq<char>, bool)>, name: Seq<char>) -> Seq<
    (Seq<char>, Seq<char>, bool),
> {
    h.filter(this_name(name))
}

/// Holds of an entry named `name`.
pub open spec fn this_name(name: Seq<char>) -> spec_fn((Seq<char>, Seq<char>, bool)) -> bool {
    |e: (Seq<char>, Seq<char>, bool)| e.0 == name
}

/// Holds of an entry whose name is not `name`.
pub open spec fn other_name(name: Seq<char>) -> spec_fn((Seq<char>, Seq<char>, bool)) -> bool {
    |e: (Seq<char>, Seq<char>, bool)| e.0 != name
}

pub fn visible_text(s: &Vec<char>) -> (r: bool)
    ensures
        r == is_visible_text(s@),
{
    let mut i: usize = 0;
    while i < s.len()
        invariant
            i <= s@.len(),
            forall|k: int|
                0 <= k < i ==> ((32 <= #[trigger] (s@[k] as u32) && (s@[k] as u32) < 127) || s@[k]
                    == '\t'),
        decreases s@.len() - i,
    {
        let u = s[i] as u32;
        if !((32 <= u && u < 127) || s[i] == '\t') {
            return false;
        }
        i = i + 1;
    }
    true
}

fn same_name(a: &String, b: &Vec<char>) -> (r: bool)
    ensures
        r == (a@ == b@),
{
    let av = chars_of(a.as_str());
    crate::text::same_chars(&av, b)
}

impl Headers {
    pub fn new() -> (r: Headers)
        ensures
            r@ == Seq::<(Seq<char>, Seq<char>, bool)>::empty(),
    {
        Headers { entries: Vec::new() }
    }

    /// The first entry named `name`, as its index.
    fn position(&self, name: &Vec<char>) -> (r: Option<usize>)
        ensures
            match first_entry(self@, name@) {
                Some(e) => r matches Some(i) && i < self@.len() && self@[i as int] == e,
                None => r is None,
            },
    {
        let mut i: usize = 0;
        proof {
            assert(self@.subrange(0, self@.len() as int) =~= self@);
        }
        while i < self.entries.len()
            invariant
                i <= self@.len(),
                self@.len() == self.entries@.len(),
                first_entry(self@, name@) == first_entry(self@.subrange(i as int, self@.len() as int), name@),
            decreases self@.len() - i,
        {
            proof {
                let rest = self@.subrange(i as int, self@.len() as int);
                assert(rest.drop_first() =~= self@.subrange(i + 1, self@.len() as int));
                assert(rest[0] == self@[i as int]);
            }
            if same_name(&self.entries[i].name, name) {
                return Some(i);
            }
            i = i + 1;
        }
        None
    }

    /// The first value of header `name` when it is text (`get` and `to_str`).
    pub fn text(&self, name: &str) -> (r: Option<String>)
        ensures
            match header_text(self@, name@) {
                Some(v) => r matches Some(s) && s@ == v,
                None => r is None,
            },
    {
        let n = chars_of(name);
        match self.position(&n) {
            Some(i) => {
                if self.entries[i].text {
                    Some(self.entries[i].value.clone())
                } else {
                    None
                }
            },
            None => None,
        }
    }

    /// Whether header `name` is there but its first value is not text.
    pub fn unreadable(&self, name: &str) -> (r: bool)
        ensures
            r == header_unreadable(self@, name@),
    {
        let n = chars_of(name);
        match self.position(&n) {
            Some(i) => !self.entries[i].text,
            None => false,
        }
    }

    /// The text of header `name`, or an empty string.
    pub fn text_or_empty(&self, name: &str) -> (r: String)
        ensures
            r@ == header_or_empty(self@, name@),
    {
        match self.text(name) {
            Some(v) => v,
            None => String::new(),
        }
    }

    /// Removes every entry named `name` (`HeaderMap::remove`).
    pub fn remove(&mut self, name: &str)
        ensures
            final(self)@ == removed(old(self)@, name@),
    {
        let n = chars_of(name);
        let ghost pred = other_name(name@);
        let mut kept: Vec<HeaderEntry> = Vec::new();
        let mut i: usize = 0;
        while i < self.entries.len()
            invariant
                i <= self@.len(),
                self@.len() == self.entries@.len(),
                n@ == name@,
                self == old(self),
                pred == other_name(name@),
                kept@.map_values(|e: HeaderEntry| entry_view(e)) == self@.subrange(0, i as int).filter(pred),
            decreases self@.len() - i,
        {
            proof {
                let p = self@.subrange(0, i + 1);
                assert(p.drop_last() =~= self@.subrange(0, i as int));
                reveal_with_fuel(Seq::filter, 1);
                assert(self@[i as int] == entry_view(self.entries@[i as int]));
                assert(p.filter(pred) == if pred(self@[i as int]) {
                    self@.subrange(0, i as int).filter(pred).push(self@[i as int])
                } else {
                    self@.subrange(0, i as int).filter(pred)
                });
            }
            let ghost before = kept@;
            let keep = !same_name(&self.entries[i].name, &n);
            proof {
                let e = self@[i as int];
                assert(e == entry_view(self.entries@[i as int]));
                assert(e.0 == self.entries@[i as int].name@);
                assert(keep == (e.0 != name@));
                assert(pred(e) == (e.0 != name@));
            }
            if keep {
                kept.push(copy_entry(&self.entries[i]));
                proof {
                    assert(kept@.map_values(|e: HeaderEntry| entry_view(e)) =~= before.map_values(
                        |e: HeaderEntry| entry_view(e),
                    ).push(self@[i as int]));
                }
            } else {
                assert(kept@ == before);
            }
            assert(kept@.map_values(|e: HeaderEntry| entry_view(e)) == self@.subrange(0, i + 1).filter(pred));
            i = i + 1;
        }
        proof {
            assert(self@.subrange(0, self@.len() as int) =~= self@);
        }
        self.entries = kept;
    }

    /// Every entry named `name`, in order (`HeaderMap::get_all`).
    pub fn all_named(&self, name: &str) -> (r: Vec<HeaderEntry>)
        ensures
            r@.map_values(|e: HeaderEntry| entry_view(e)) == entries_named(self@, name@),
    {
        let n = chars_of(name);
        let ghost pred = this_name(name@);
        let mut kept: Vec<HeaderEntry> = Vec::new();
        let mut i: usize = 0;
        while i < self.entries.len()
            invariant
                i <= self@.len(),
                self@.len() == self.entries@.len(),
                n@ == name@,
                pred == this_name(name@),
                kept@.map_values(|e: HeaderEntry| entry_view(e)) == self@.subrange(0, i as int).filter(pred),
            decreases self@.len() - i,
        {
            proof {
                let p = self@.subrange(0, i + 1);
                assert(p.drop_last() =~= self@.subrange(0, i as int));
                reveal_with_fuel(Seq::filter, 1);
                assert(self@[i as int] == entry_view(self.entries@[i as int]));
            }
            let ghost before = kept@;
            let keep = same_name(&self.entries[i].name, &n);
            if keep {
                kept.push(copy_entry(&self.entries[i]));
                proof {
                    assert(kept@.map_values(|e: HeaderEntry| entry_view(e)) =~= before.map_values(
                        |e: HeaderEntry| entry_view(e),
                    ).push(self@[i as int]));
                }
            }
            i = i + 1;
        }
        proof {
            assert(self@.subrange(0, self@.len() as int) =~= self@);
        }
        kept
    }

    /// Sets header `name` to `value`, replacing its earlier values
    /// (`HeaderMap::insert`).
    pub fn insert(&mut self, name: &str, value: &str)
        ensures
            final(self)@ == inserted(old(self)@, name@, value@),
    {
        self.remove(name);
        let v = chars_of(value);
        let text = visible_text(&v);
        let ghost before = self@;
        self.entries.push(HeaderEntry { name: owned(name), value: owned(value), text });
        proof {
            assert(self@ =~= before.push((name@, value@, is_visible_text(value@))));
        }
    }
}

fn copy_entry(e: &HeaderEntry) -> (r: HeaderEntry)
    ensures
        entry_view(r) == entry_view(*e),
{
    HeaderEntry { name: e.name.clone(), value: e.value.clone(), text: e.text }
}


proof fn lemma_first_entry_filter_other(h: Seq<(Seq<char>, Seq<char>, bool)>, name: Seq<char>, other: Seq<char>)
    requires
        other != name,
    ensures
        first_entry(removed(h, name), other) == first_entry(h, other),
    decreases h.len(),
{
    if h.len() > 0 {
        lemma_first_entry_filter_other(h.drop_first(), name, other);
        h.lemma_filter_eq_filter_alt(other_name(name));
        let t = removed(h.drop_first(), name);
        if h[0].0 != name {
            assert((seq![h[0]] + t).drop_first() =~= t);
            assert((seq![h[0]] + t)[0] == h[0]);
        } else {
            assert(removed(h, name) =~= t);
        }
    }
}

proof fn lemma_first_entry_removed(h: Seq<(Seq<char>, Seq<char>, bool)>, name: Seq<char>)
    ensures
        first_entry(removed(h, name), name) is None,
    decreases h.len(),
{
    if h.len() > 0 {
        lemma_first_entry_removed(h.drop_first(), name);
        h.lemma_filter_eq_filter_alt(other_name(name));
        let t = removed(h.drop_first(), name);
        if h[0].0 != name {
            assert((seq![h[0]] + t).drop_first() =~= t);
            assert((seq![h[0]] + t)[0] == h[0]);
        } else {
            assert(removed(h, name) =~= t);
        }
    } else {
        reveal_with_fuel(Seq::filter, 1);
    }
}

proof fn lemma_first_entry_push(h: Seq<(Seq<char>, Seq<char>, bool)>, e: (Seq<char>, Seq<char>, bool), name: Seq<char>)
    ensures
        first_entry(h.push(e), name) == match first_entry(h, name) {
            Some(x) => Some(x),
            None => if e.0 == name {
                Some(e)
            } else {
                None
            },
        },
    decreases h.len(),
{
    if h.len() > 0 {
        assert(h.push(e).drop_first() =~= h.drop_first().push(e));
        assert(h.push(e)[0] == h[0]);
        lemma_first_entry_push(h.drop_first(), e, name);
    } else {
        assert(h.push(e).drop_first() =~= Seq::<(Seq<char>, Seq<char>, bool)>::empty());
        assert(h.push(e)[0] == e);
        assert(first_entry(Seq::<(Seq<char>, Seq<char>, bool)>::empty(), name) is None);
    }
}

/// A header reads back as the value it was set to, when that value is text;
/// the other headers read as before.
pub proof fn lemma_insert_then_read(
    h: Seq<(Seq<char>, Seq<char>, bool)>,
    name: Seq<char>,
    value: Seq<char>,
    other: Seq<char>,
)
    ensures
        header_text(inserted(h, name, value), name) == if is_visible_text(value) {
            Some(value)
        } else {
            None::<Seq<char>>
        },
        header_unreadable(inserted(h, name, value), name) == !is_visible_text(value),
        other != name ==> header_text(inserted(h, name, value), other) == header_text(h, other),
{
    lemma_first_entry_removed(h, name);
    lemma_first_entry_push(removed(h, name), (name, value, is_visible_text(value)), name);
    if other != name {
        lemma_first_entry_filter_other(h, name, other);
        lemma_first_entry_push(removed(h, name), (name, value, is_visible_text(value)), other);
    }
}

/// A removed header reads as missing; the other headers read as before.
pub proof fn lemma_remove_then_read(h: Seq<(Seq<char>, Seq<char>, bool)>, name: Seq<char>, other: Seq<char>)
    ensures
        header_text(removed(h, name), name) is None,
        !header_unreadable(removed(h, name), name),
        other != name ==> header_text(removed(h, name), other) == header_text(h, other),
{
    lemma_first_entry_removed(h, name);
    if other != name {
        lemma_first_entry_filter_other(h, name, other);
    }
}

} // verus!
