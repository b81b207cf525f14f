//! # Text helpers
//!
//! The few `str` operations the game rules use (trimming, prefix stripping, equality,
//! copying), each stated over the character sequence that `@` gives a string, and an
//! ordered set of names without repeats.

use vstd::prelude::*;
use vstd::string::StringExecFns;

verus! {

/// The Unicode `White_Space` property, which `char::is_whitespace`, `str::trim` and
/// `str::split_whitespace` test: tab through carriage return, space, next line, no-break
/// space, ogham space mark, the en quad through hair space, line and paragraph separators,
/// narrow no-break space, medium mathematical space and ideographic space.
pub open spec fn unicode_white_space(c: char) -> bool {
    let n = c as u32;
    ||| 0x09 <= n <= 0x0d
    ||| n == 0x20
    ||| n == 0x85
    ||| n == 0xa0
    ||| n == 0x1680
    ||| 0x2000 <= n <= 0x200a
    ||| n == 0x2028
    ||| n == 0x2029
    ||| n == 0x202f
    ||| n == 0x205f
    ||| n == 0x3000
}

/// Number of leading characters of `s` that are white space.
pub open spec fn leading_ws(s: Seq<char>) -> nat
    decreases s.len(),
{
    if s.len() > 0 && unicode_white_space(s[0]) {
        1 + leading_ws(s.drop_first())
    } else {
        0
    }
}

/// Number of trailing characters of `s` that are white space.
pub open spec fn trailing_ws(s: Seq<char>) -> nat
    decreases s.len(),
{
    if s.len() > 0 && unicode_white_space(s.last()) {
        1 + trailing_ws(s.drop_last())
    } else {
        0
    }
}

/// `s` without its leading and trailing white space.
pub open spec fn trim_view(s: Seq<char>) -> Seq<char> {
    let rest = s.skip(leading_ws(s) as int);
    rest.take(rest.len() - trailing_ws(rest))
}

proof fn lemma_leading_ws_bound(s: Seq<char>)
    ensures
        leading_ws(s) <= s.len(),
        forall|i: int| 0 <= i < leading_ws(s) ==> unicode_white_space(s[i]),
        leading_ws(s) < s.len() ==> !unicode_white_space(s[leading_ws(s) as int]),
    decreases s.len(),
{
    if s.len() > 0 && unicode_white_space(s[0]) {
        lemma_leading_ws_bound(s.drop_first());
        assert forall|i: int| 0 <= i < leading_ws(s) implies unicode_white_space(s[i]) by {
            if i > 0 {
                assert(s[i] == s.drop_first()[i - 1]);
            }
        }
    }
}

proof fn lemma_trailing_ws_bound(s: Seq<char>)
    ensures
        trailing_ws(s) <= s.len(),
        forall|i: int| s.len() - trailing_ws(s) <= i < s.len() ==> unicode_white_space(s[i]),
        trailing_ws(s) < s.len() ==> !unicode_white_space(s[s.len() - trailing_ws(s) - 1]),
    decreases s.len(),
{
    if s.len() > 0 && unicode_white_space(s.last()) {
        lemma_trailing_ws_bound(s.drop_last());
        assert forall|i: int| s.len() - trailing_ws(s) <= i < s.len() implies unicode_white_space(
            s[i],
        ) by {
            if i < s.len() - 1 {
                assert(s[i] == s.drop_last()[i]);
            }
        }
    }
}

proof fn lemma_leading_zero(s: Seq<char>)
    requires
        s.len() == 0 || !unicode_white_space(s[0]),
    ensures
        leading_ws(s) == 0,
{
}

proof fn lemma_trailing_zero(s: Seq<char>)
    requires
        s.len() == 0 || !unicode_white_space(s.last()),
    ensures
        trailing_ws(s) == 0,
{
}

/// The trimmed text starts and ends with a non white-space character, or is empty.
pub proof fn lemma_trim_ends(s: Seq<char>)
    ensures
        trim_view(s).len() > 0 ==> !unicode_white_space(trim_view(s)[0]) && !unicode_white_space(
            trim_view(s).last(),
        ),
{
    lemma_leading_ws_bound(s);
    let rest = s.skip(leading_ws(s) as int);
    lemma_trailing_ws_bound(rest);
    let t = trim_view(s);
    if t.len() > 0 {
        assert(t[0] == rest[0]);
        assert(rest[0] == s[leading_ws(s) as int]);
        assert(t.last() == rest[rest.len() - trailing_ws(rest) - 1]);
    }
}

/// Trimming twice is trimming once.
pub proof fn lemma_trim_idempotent(s: Seq<char>)
    ensures
        trim_view(trim_view(s)) == trim_view(s),
{
    let t = trim_view(s);
    lemma_trim_ends(s);
    lemma_leading_zero(t);
    assert(t.skip(0) =~= t);
    lemma_trailing_zero(t);
    assert(t.take(t.len() as int) =~= t);
}

/// `str::trim`: the documentation says it returns the slice with leading and trailing
/// white space (the Unicode `White_Space` property) removed; the contract says exactly that.
#[verifier::external_body]
pub(crate) fn trim<'a>(s: &'a str) -> (r: &'a str)
    ensures
        r@ == trim_view(s@),
        r@.len() > 0 ==> !unicode_white_space(r@[0]) && !unicode_white_space(r@.last()),
{
    s.trim()
}

/// `str::strip_prefix` with a `&str` pattern: `Some` of the rest exactly when `p` is a prefix.
#[verifier::external_body]
pub(crate) fn strip_prefix<'a>(s: &'a str, p: &str) -> (r: Option<&'a str>)
    ensures
        match r {
            Some(rest) => p@.is_prefix_of(s@) && rest@ == s@.skip(p@.len() as int),
            None => !p@.is_prefix_of(s@),
        },
{
    s.strip_prefix(p)
}

/// Whether two string slices hold the same characters.
pub fn str_eq(a: &str, b: &str) -> (r: bool)
    ensures
        r == (a@ == b@),
{
    let n = a.unicode_len();
    if n != b.unicode_len() {
        return false;
    }
    let mut i: usize = 0;
    while i < n
        invariant
            i <= n,
            n == a@.len(),
            n == b@.len(),
            forall|j: int| 0 <= j < i ==> a@[j] == b@[j],
        decreases n - i,
    {
        if a.get_char(i) != b.get_char(i) {
            return false;
        }
        i = i + 1;
    }
    assert(a@ =~= b@);
    true
}

/// An owned copy of `s`, with the same characters.
pub fn owned(s: &str) -> (r: String)
    ensures
        r@ == s@,
{
    s.to_owned()
}

/// A new string: `a` followed by `b`.
pub fn concat(a: &str, b: &str) -> (r: String)
    ensures
        r@ == a@ + b@,
{
    let mut s = a.to_owned();
    s.append(b);
    s
}

/// The characters `char::to_uppercase` yields for `c` (Unicode case mapping, possibly several).
pub uninterp spec fn char_upper_view(c: char) -> Seq<char>;

/// The characters `char::to_lowercase` yields for `c` (Unicode case mapping, possibly several).
pub uninterp spec fn char_lower_view(c: char) -> Seq<char>;

/// The Unicode `Uppercase` property, which `char::is_uppercase` tests.
pub uninterp spec fn unicode_uppercase(c: char) -> bool;

/// `char::to_uppercase`, collected into a string.
#[verifier::external_body]
pub(crate) fn char_to_upper(c: char) -> (r: String)
    ensures
        r@ == char_upper_view(c),
{
    c.to_uppercase().collect()
}

/// `char::to_lowercase`, collected into a string.
#[verifier::external_body]
pub(crate) fn char_to_lower(c: char) -> (r: String)
    ensures
        r@ == char_lower_view(c),
{
    c.to_lowercase().collect()
}

/// `char::is_uppercase`: whether `c` has the Unicode `Uppercase` property.
#[verifier::external_body]
pub(crate) fn char_is_upper(c: char) -> (r: bool)
    ensures
        r == unicode_uppercase(c),
{
    c.is_uppercase()
}

/// `String::push`: `c` appended.
#[verifier::external_body]
pub(crate) fn push_char(s: &mut String, c: char)
    ensures
        final(s)@ == old(s)@.push(c),
{
    s.push(c);
}

/// The words of `s`: its maximal runs of characters without the `White_Space` property, in
/// order.
pub open spec fn words_view(s: Seq<char>) -> Seq<Seq<char>>
    decreases s.len(),
{
    if s.len() == 0 {
        seq![]
    } else {
        let w = words_view(s.drop_last());
        let c = s.last();
        if unicode_white_space(c) {
            w
        } else if s.len() > 1 && !unicode_white_space(s[s.len() - 2]) {
            w.update(w.len() - 1, w.last().push(c))
        } else {
            w.push(seq![c])
        }
    }
}

/// `str::split_whitespace`, collected: the documentation says it yields the sub-slices
/// separated by any amount of white space (the Unicode `White_Space` property), none empty.
#[verifier::external_body]
pub(crate) fn split_whitespace(s: &str) -> (r: Vec<String>)
    ensures
        names(r@) == words_view(s@),
{
    s.split_whitespace().map(|w| w.to_owned()).collect()
}

/// What `str::to_lowercase` gives for `s` (Unicode case mapping, including the word-final
/// form of capital sigma).
pub uninterp spec fn str_lower_view(s: Seq<char>) -> Seq<char>;

/// `str::to_lowercase`.
#[verifier::external_body]
pub(crate) fn str_to_lower(s: &str) -> (r: String)
    ensures
        r@ == str_lower_view(s@),
{
    s.to_lowercase()
}

/// What `format!("{:?}", s)` writes for a string slice `s`: quoted, with escapes.
pub uninterp spec fn debug_str_view(s: Seq<char>) -> Seq<char>;

/// `<str as Debug>::fmt` through `format!`: the quoted, escaped form of `s`.
#[verifier::external_body]
pub(crate) fn debug_str(s: &str) -> (r: String)
    ensures
        r@ == debug_str_view(s@),
{
    format!("{s:?}")
}

/// The decimal digit character for `d < 10`.
pub open spec fn digit_char(d: nat) -> char {
    (48 + d) as char
}

/// Decimal notation of `n`, without sign or leading zeros.
pub open spec fn decimal_view(n: nat) -> Seq<char>
    decreases n,
{
    if n < 10 {
        seq![digit_char(n)]
    } else {
        decimal_view(n / 10).push(digit_char(n % 10))
    }
}

/// `n` in decimal notation.
pub fn usize_text(n: usize) -> (r: String)
    ensures
        r@ == decimal_view(n as nat),
    decreases n,
{
    let mut s = if n < 10 {
        String::new()
    } else {
        usize_text(n / 10)
    };
    let d: u8 = (n % 10) as u8;
    let c = (48u8 + d) as char;
    assert(c == digit_char((n % 10) as nat));
    push_char(&mut s, c);
    if n < 10 {
        assert(s@ =~= seq![digit_char(n as nat)]);
    }
    s
}

/// The characters of each string of a sequence.
pub open spec fn names(v: Seq<String>) -> Seq<Seq<char>> {
    v.map_values(|s: String| s@)
}

/// Whether `v` holds a string equal to `s`.
pub fn list_contains(v: &Vec<String>, s: &str) -> (r: bool)
    ensures
        r == names(v@).contains(s@),
{
    let mut i: usize = 0;
    while i < v.len()
        invariant
            i <= v.len(),
            forall|j: int| 0 <= j < i ==> v@[j]@ != s@,
        decreases v.len() - i,
    {
        if str_eq(v[i].as_str(), s) {
            assert(names(v@)[i as int] == s@);
            return true;
        }
        i = i + 1;
    }
    proof {
        if names(v@).contains(s@) {
            let k = choose|k: int| 0 <= k < names(v@).len() && names(v@)[k] == s@;
            assert(v@[k]@ == s@);
        }
    }
    false
}

/// Position of the first string of `v` equal to `s`.
pub fn list_position(v: &Vec<String>, s: &str) -> (r: Option<usize>)
    ensures
        match r {
            Some(i) => i < v.len() && v@[i as int]@ == s@ && forall|j: int|
                0 <= j < i ==> v@[j]@ != s@,
            None => !names(v@).contains(s@),
        },
{
    let mut i: usize = 0;
    while i < v.len()
        invariant
            i <= v.len(),
            forall|j: int| 0 <= j < i ==> v@[j]@ != s@,
        decreases v.len() - i,
    {
        if str_eq(v[i].as_str(), s) {
            return Some(i);
        }
        i = i + 1;
    }
    proof {
        if names(v@).contains(s@) {
            let k = choose|k: int| 0 <= k < names(v@).len() && names(v@)[k] == s@;
            assert(v@[k]@ == s@);
        }
    }
    None
}

pub proof fn lemma_names_push(v: Seq<String>, x: String)
    ensures
        names(v.push(x)) == names(v).push(x@),
{
    assert(names(v.push(x)) =~= names(v).push(x@));
}

pub proof fn lemma_to_set_push(v: Seq<Seq<char>>, x: Seq<char>)
    ensures
        v.push(x).to_set() == v.to_set().insert(x),
{
    assert forall|y: Seq<char>| v.push(x).contains(y) <==> v.to_set().insert(x).contains(y) by {
        if v.push(x).contains(y) {
            let k = choose|k: int| 0 <= k < v.push(x).len() && v.push(x)[k] == y;
            if k < v.len() {
                assert(v[k] == y);
            }
        }
        if v.contains(y) {
            let k = choose|k: int| 0 <= k < v.len() && v[k] == y;
            assert(v.push(x)[k] == y);
        }
        if y == x {
            assert(v.push(x)[v.len() as int] == y);
        }
    }
    assert(v.push(x).to_set() =~= v.to_set().insert(x));
}

/// Index of the first entry at or after `i` whose key is `id`.
pub open spec fn keyed_index_from<T>(es: Seq<(String, T)>, id: Seq<char>, i: int) -> Option<int>
    decreases es.len() - i,
{
    if i < 0 || i >= es.len() {
        None
    } else if es[i].0@ == id {
        Some(i)
    } else {
        keyed_index_from(es, id, i + 1)
    }
}

/// The keys of keyed entries.
pub open spec fn keys_of<T>(es: Seq<(String, T)>) -> Seq<Seq<char>> {
    es.map_values(|e: (String, T)| e.0@)
}

pub proof fn lemma_keyed_index_range<T>(es: Seq<(String, T)>, id: Seq<char>, i: int)
    ensures
        keyed_index_from(es, id, i) matches Some(j) ==> 0 <= i <= j < es.len() && es[j].0@ == id
            && forall|k: int| i <= k < j ==> es[k].0@ != id,
        keyed_index_from(es, id, i) is None ==> forall|k: int|
            0 <= i <= k < es.len() ==> es[k].0@ != id,
    decreases es.len() - i,
{
    if 0 <= i < es.len() && es[i].0@ != id {
        lemma_keyed_index_range(es, id, i + 1);
    }
}

/// Position of the first entry of `es` whose key is `id`.
pub fn keyed_find<T>(es: &Vec<(String, T)>, id: &str) -> (r: Option<usize>)
    ensures
        match r {
            Some(i) => i < es@.len() && keyed_index_from(es@, id@, 0) == Some(i as int),
            None => keyed_index_from(es@, id@, 0) is None,
        },
{
    proof {
        lemma_keyed_index_range(es@, id@, 0);
    }
    let mut i: usize = 0;
    while i < es.len()
        invariant
            i <= es.len(),
            keyed_index_from(es@, id@, 0) == keyed_index_from(es@, id@, i as int),
        decreases es.len() - i,
    {
        if str_eq(es[i].0.as_str(), id) {
            return Some(i);
        }
        i = i + 1;
    }
    None
}

/// A finite set of names, kept as a list without repeats in insertion order.
pub struct NameSet {
    items: Vec<String>,
}

impl View for NameSet {
    type V = Set<Seq<char>>;

    closed spec fn view(&self) -> Set<Seq<char>> {
        names(self.items@).to_set()
    }
}

impl NameSet {
    #[verifier::type_invariant]
    closed spec fn no_repeats(&self) -> bool {
        names(self.items@).no_duplicates()
    }

    pub fn new() -> (r: Self)
        ensures
            r@ == Set::<Seq<char>>::empty(),
    {
        let r = NameSet { items: Vec::new() };
        assert(names(r.items@).to_set() =~= Set::<Seq<char>>::empty());
        r
    }

    pub fn contains(&self, s: &str) -> (r: bool)
        ensures
            r == self@.contains(s@),
    {
        list_contains(&self.items, s)
    }

    pub fn insert(&mut self, s: &str)
        ensures
            final(self)@ == old(self)@.insert(s@),
    {
        proof {
            use_type_invariant(&*self);
        }
        if !list_contains(&self.items, s) {
            let mut items: Vec<String> = Vec::new();
                std::mem::swap(&mut items, &mut self.items);
            let ghost before = items@;
            let o = owned(s);
            items.push(o);
            proof {
                lemma_names_push(before, o);
                lemma_to_set_push(names(before), s@);
                assert(names(items@).no_duplicates());
            }
            self.items = items;
        } else {
            assert(old(self)@.insert(s@) =~= old(self)@);
        }
    }

    pub fn remove(&mut self, s: &str)
        ensures
            final(self)@ == old(self)@.remove(s@),
    {
        proof {
            use_type_invariant(&*self);
        }
        match list_position(&self.items, s) {
            Some(i) => {
                let mut items: Vec<String> = Vec::new();
                std::mem::swap(&mut items, &mut self.items);
                let ghost before = names(items@);
                items.remove(i);
                proof {
                    assert(names(items@) =~= before.remove(i as int));
                    assert(before.no_duplicates());
                    assert(before[i as int] == s@);
                    assert forall|x: Seq<char>|
                        names(items@).contains(x) <==> before.to_set().remove(s@).contains(x) by {
                        if names(items@).contains(x) {
                            let k = choose|k: int| 0 <= k < names(items@).len() && names(items@)[k] == x;
                            if k < i {
                                assert(before[k] == x);
                                assert(k != i);
                            } else {
                                assert(before[k + 1] == x);
                                assert(k + 1 != i);
                            }
                            assert(before.contains(x));
                            assert(x != s@);
                        }
                        if before.to_set().remove(s@).contains(x) {
                            let k = choose|k: int| 0 <= k < before.len() && before[k] == x;
                            assert(k != i);
                            if k < i {
                                assert(names(items@)[k] == x);
                            } else {
                                assert(names(items@)[k - 1] == x);
                            }
                        }
                    }
                    assert(names(items@).to_set() =~= before.to_set().remove(s@));
                }
                self.items = items;
            },
            None => {
                assert(old(self)@.remove(s@) =~= old(self)@);
            },
        }
    }

    /// The names as a list, in stored order: each member once.
    pub fn to_vec(&self) -> (r: Vec<String>)
        ensures
            names(r@).no_duplicates(),
            names(r@).to_set() == self@,
    {
        proof {
            use_type_invariant(self);
        }
        let mut r: Vec<String> = Vec::new();
        let mut i: usize = 0;
        while i < self.items.len()
            invariant
                i <= self.items.len(),
                names(r@) == names(self.items@).take(i as int),
            decreases self.items.len() - i,
        {
            let ghost r0 = r@;
            let o = owned(self.items[i].as_str());
            r.push(o);
            proof {
                lemma_names_push(r0, o);
                assert(names(r@) =~= names(self.items@).take(i + 1));
            }
            i = i + 1;
        }
        assert(names(self.items@).take(i as int) =~= names(self.items@));
        r
    }

    /// The set of the names in `v`; later repeats are dropped.
    pub fn from_vec(v: &Vec<String>) -> (r: Self)
        ensures
            r@ == names(v@).to_set(),
    {
        let mut r = NameSet::new();
        let mut i: usize = 0;
        while i < v.len()
            invariant
                i <= v.len(),
                r@ == names(v@).take(i as int).to_set(),
            decreases v.len() - i,
        {
            r.insert(v[i].as_str());
            proof {
                assert(names(v@).take(i + 1) =~= names(v@).take(i as int).push(v@[i as int]@));
                lemma_to_set_push(names(v@).take(i as int), v@[i as int]@);
            }
            i = i + 1;
        }
        assert(names(v@).take(i as int) =~= names(v@));
        r
    }
}

} // verus!
