//! Paths as byte strings, and their split into names.
//!
//! A path is a string of bytes in which `/` separates names. Empty pieces and
//! the piece `.` name nothing, so `/a//b/./c/` and `/a/b/c` have the same three
//! names. The model of a path is the sequence of its names; all decisions of
//! this library are taken on that sequence, and bytes are produced again only
//! when a path of the backing store is handed out.

use vstd::prelude::*;

verus! {

/// The byte that separates names in a path.
pub const SEPARATOR: u8 = 0x2f;

/// The byte of which the name-less piece `.` consists.
pub const DOT: u8 = 0x2e;

/// The number of bytes before the first separator of `s`.
pub open spec fn run_length(s: Seq<u8>) -> nat
    decreases s.len(),
{
    if s.len() == 0 || s[0] == SEPARATOR {
        0
    } else {
        1 + run_length(s.skip(1))
    }
}

/// Whether a separator-free piece of a path is a name.
pub open spec fn is_name(piece: Seq<u8>) -> bool {
    piece.len() > 0 && !(piece.len() == 1 && piece[0] == DOT)
}

/// The names of a path, in order.
pub open spec fn components(s: Seq<u8>) -> Seq<Seq<u8>>
    decreases s.len(),
{
    if s.len() == 0 {
        Seq::empty()
    } else {
        let n = run_length(s) as int;
        let rest = if n < s.len() {
            components(s.skip(n + 1))
        } else {
            Seq::empty()
        };
        if is_name(s.take(n)) {
            seq![s.take(n)] + rest
        } else {
            rest
        }
    }
}

/// Whether a path starts at the root.
pub open spec fn is_absolute(s: Seq<u8>) -> bool {
    s.len() > 0 && s[0] == SEPARATOR
}

/// The names joined by single separators, without a leading one.
pub open spec fn joined(names: Seq<Seq<u8>>) -> Seq<u8>
    decreases names.len(),
{
    if names.len() == 0 {
        Seq::empty()
    } else if names.len() == 1 {
        names[0]
    } else {
        names[0] + seq![SEPARATOR] + joined(names.skip(1))
    }
}

/// A directory path made ready to take a relative path behind it: a separator
/// is added unless the path is empty or ends in one.
pub open spec fn with_separator(base: Seq<u8>) -> Seq<u8> {
    if base.len() == 0 || base.last() == SEPARATOR {
        base
    } else {
        base.push(SEPARATOR)
    }
}

/// The path of the entry `names` below the directory `base`.
pub open spec fn below(base: Seq<u8>, names: Seq<Seq<u8>>) -> Seq<u8> {
    with_separator(base) + joined(names)
}

/// The views of a vector of byte strings.
pub open spec fn names_of(v: Seq<Vec<u8>>) -> Seq<Seq<u8>> {
    Seq::new(v.len(), |i: int| v[i]@)
}

/// `run_length` is the index of the first separator, or the length where
/// there is none.
pub proof fn lemma_run_length(s: Seq<u8>, n: int)
    requires
        0 <= n <= s.len(),
        forall|j: int| 0 <= j < n ==> s[j] != SEPARATOR,
        n == s.len() || s[n] == SEPARATOR,
    ensures
        run_length(s) == n,
    decreases n,
{
    if n > 0 {
        let t = s.skip(1);
        assert forall|j: int| 0 <= j < n - 1 implies t[j] != SEPARATOR by {
            assert(t[j] == s[j + 1]);
        }
        lemma_run_length(t, n - 1);
    }
}

/// Joining one more name appends a separator and the name.
pub proof fn lemma_joined_push(names: Seq<Seq<u8>>, name: Seq<u8>)
    ensures
        joined(names.push(name)) == if names.len() == 0 {
            name
        } else {
            joined(names) + seq![SEPARATOR] + name
        },
    decreases names.len(),
{
    let all = names.push(name);
    if names.len() == 0 {
        assert(all[0] == name);
    } else {
        assert(all.skip(1) =~= names.skip(1).push(name));
        lemma_joined_push(names.skip(1), name);
        if names.len() == 1 {
            assert(names.skip(1).len() == 0);
            assert(joined(all) =~= names[0] + seq![SEPARATOR] + name);
        } else {
            assert(joined(all) =~= joined(names) + seq![SEPARATOR] + name);
        }
    }
}

/// What `run_length` counts: the bytes before the first separator.
pub proof fn lemma_run_length_bounds(s: Seq<u8>)
    ensures
        run_length(s) <= s.len(),
        forall|j: int| 0 <= j < run_length(s) ==> s[j] != SEPARATOR,
        run_length(s) == s.len() || s[run_length(s) as int] == SEPARATOR,
    decreases s.len(),
{
    if s.len() == 0 || s[0] == SEPARATOR {
    } else {
        let t = s.skip(1);
        lemma_run_length_bounds(t);
        assert forall|j: int| 0 <= j < run_length(s) implies s[j] != SEPARATOR by {
            if j > 0 {
                assert(t[j - 1] == s[j]);
            }
        }
        if run_length(t) < t.len() {
            assert(t[run_length(t) as int] == s[run_length(s) as int]);
        }
    }
}

/// A path put behind another, with a separator between them, has the names
/// of the first followed by the names of the second.
pub proof fn lemma_components_concat(a: Seq<u8>, b: Seq<u8>)
    ensures
        components(a + seq![SEPARATOR] + b) == components(a) + components(b),
    decreases a.len(),
{
    let s = a + seq![SEPARATOR] + b;
    if a.len() == 0 {
        assert(s[0] == SEPARATOR);
        assert(!is_name(s.take(0)));
        assert(s.skip(1) =~= b);
        assert(components(s) =~= components(a) + components(b));
    } else {
        lemma_run_length_bounds(a);
        let n = run_length(a) as int;
        assert forall|j: int| 0 <= j < n implies s[j] != SEPARATOR by {
            assert(s[j] == a[j]);
        }
        if n < a.len() {
            assert(s[n] == a[n]);
        } else {
            assert(s[n] == SEPARATOR);
        }
        lemma_run_length(s, n);
        assert(s.take(n) =~= a.take(n));
        if n < a.len() {
            assert(s.skip(n + 1) =~= a.skip(n + 1) + seq![SEPARATOR] + b);
            lemma_components_concat(a.skip(n + 1), b);
        } else {
            assert(s.skip(n + 1) =~= b);
        }
        assert(components(s) =~= components(a) + components(b));
    }
}

/// Whether a byte string is a single name: not empty, not `.`, and free of
/// separators.
pub open spec fn is_plain_name(name: Seq<u8>) -> bool {
    is_name(name) && forall|j: int| 0 <= j < name.len() ==> name[j] != SEPARATOR
}

/// Whether a path is written the way the kernel writes it: one separator
/// before each name and nothing else, and a single separator for the root.
pub open spec fn is_normal(path: Seq<u8>) -> bool {
    path == seq![SEPARATOR] + joined(components(path))
}

/// A single name is its own only name.
pub proof fn lemma_components_of_name(name: Seq<u8>)
    requires
        is_plain_name(name),
    ensures
        components(name) == seq![name],
{
    lemma_run_length(name, name.len() as int);
    assert(name.take(name.len() as int) =~= name);
}

/// Names that are joined parse back into the same names.
pub proof fn lemma_components_of_joined(names: Seq<Seq<u8>>)
    requires
        forall|i: int| 0 <= i < names.len() ==> is_plain_name(#[trigger] names[i]),
    ensures
        components(joined(names)) == names,
    decreases names.len(),
{
    if names.len() == 0 {
        assert(components(joined(names)) =~= names);
    } else if names.len() == 1 {
        lemma_components_of_name(names[0]);
        assert(seq![names[0]] =~= names);
    } else {
        let rest = names.skip(1);
        assert forall|i: int| 0 <= i < rest.len() implies is_plain_name(#[trigger] rest[i]) by {
            assert(rest[i] == names[i + 1]);
        }
        lemma_components_of_joined(rest);
        lemma_components_of_name(names[0]);
        lemma_components_concat(names[0], joined(rest));
        assert(seq![names[0]] + rest =~= names);
    }
}

/// The path written for a sequence of single names is in normal form and has
/// exactly those names.
pub proof fn lemma_rendered_path_is_normal(names: Seq<Seq<u8>>)
    requires
        forall|i: int| 0 <= i < names.len() ==> is_plain_name(#[trigger] names[i]),
    ensures
        components(seq![SEPARATOR] + joined(names)) == names,
        is_normal(seq![SEPARATOR] + joined(names)),
{
    let empty = Seq::<u8>::empty();
    lemma_components_of_joined(names);
    lemma_components_concat(empty, joined(names));
    assert(empty + seq![SEPARATOR] + joined(names) =~= seq![SEPARATOR] + joined(names));
    assert(components(empty) + names =~= names);
}

/// A path below a directory that is named is never the empty path.
pub proof fn lemma_below_is_not_empty(base: Seq<u8>, names: Seq<Seq<u8>>)
    requires
        base.len() > 0,
    ensures
        below(base, names).len() > 0,
{
}

/// A copy of a byte string.
pub fn copy_bytes(s: &[u8]) -> (out: Vec<u8>)
    ensures
        out@ == s@,
{
    let mut out: Vec<u8> = Vec::new();
    let mut i: usize = 0;
    while i < s.len()
        invariant
            i <= s.len(),
            out@ == s@.take(i as int),
        decreases s.len() - i,
    {
        out.push(s[i]);
        assert(s@.take(i + 1) =~= s@.take(i as int).push(s@[i as int]));
        i += 1;
    }
    assert(s@.take(s.len() as int) =~= s@);
    out
}

/// Whether two byte strings are equal.
pub fn same_bytes(a: &[u8], b: &[u8]) -> (same: bool)
    ensures
        same == (a@ == b@),
{
    if a.len() != b.len() {
        return false;
    }
    let mut i: usize = 0;
    while i < a.len()
        invariant
            i <= a.len(),
            a.len() == b.len(),
            a@.take(i as int) == b@.take(i as int),
        decreases a.len() - i,
    {
        if a[i] != b[i] {
            return false;
        }
        assert(a@.take(i + 1) =~= a@.take(i as int).push(a@[i as int]));
        assert(b@.take(i + 1) =~= b@.take(i as int).push(b@[i as int]));
        i += 1;
    }
    assert(a@.take(a.len() as int) =~= a@);
    assert(b@.take(b.len() as int) =~= b@);
    true
}

/// The path of the entry `name` in the directory `parent`.
pub fn child_path(parent: &[u8], name: &[u8]) -> (path: Vec<u8>)
    ensures
        path@ == parent@ + seq![SEPARATOR] + name@,
        components(path@) == components(parent@) + components(name@),
        is_absolute(parent@) ==> is_absolute(path@),
{
    let mut path: Vec<u8> = copy_bytes(parent);
    path.push(SEPARATOR);
    let mut i: usize = 0;
    while i < name.len()
        invariant
            i <= name@.len(),
            path@ == parent@ + seq![SEPARATOR] + name@.take(i as int),
        decreases name.len() - i,
    {
        path.push(name[i]);
        assert(name@.take(i + 1) =~= name@.take(i as int).push(name@[i as int]));
        i += 1;
    }
    assert(name@.take(name@.len() as int) =~= name@);
    proof {
        lemma_components_concat(parent@, name@);
    }
    path
}

/// Tells whether a path starts at the root.
pub fn starts_at_root(path: &[u8]) -> (absolute: bool)
    ensures
        absolute == is_absolute(path@),
{
    path.len() > 0 && path[0] == SEPARATOR
}

/// The names of a path: the model on which paths are compared and rewritten.
#[derive(Clone, Debug, PartialEq, Eq)]
pub struct Components {
    pub names: Vec<Vec<u8>>,
}

impl View for Components {
    type V = Seq<Seq<u8>>;

    open spec fn view(&self) -> Seq<Seq<u8>> {
        names_of(self.names@)
    }
}

impl Components {
    /// No names: the root.
    pub fn new() -> (c: Components)
        ensures
            c@ == Seq::<Seq<u8>>::empty(),
    {
        let c = Components { names: Vec::new() };
        assert(c@ =~= Seq::<Seq<u8>>::empty());
        c
    }

    /// Splits a path into its names.
    pub fn parse(path: &[u8]) -> (c: Components)
        ensures
            c@ == components(path@),
    {
        let mut names: Vec<Vec<u8>> = Vec::new();
        let mut piece: Vec<u8> = Vec::new();
        let mut start: usize = 0;
        let mut i: usize = 0;
        assert(path@.skip(0) =~= path@);
        assert(names_of(names@) =~= Seq::<Seq<u8>>::empty());
        while i < path.len()
            invariant
                start <= i <= path.len(),
                piece@ == path@.subrange(start as int, i as int),
                forall|j: int| start <= j < i ==> path@[j] != SEPARATOR,
                components(path@) == names_of(names@) + components(path@.skip(start as int)),
            decreases path.len() - i,
        {
            let b = path[i];
            if b == SEPARATOR {
                let ghost tail = path@.skip(start as int);
                let ghost n = i - start;
                proof {
                    lemma_run_length(tail, n);
                    assert(tail.take(n) =~= piece@);
                    assert(tail.skip(n + 1) =~= path@.skip(i + 1));
                }
                let ghost before = names_of(names@);
                if piece.len() > 0 && !(piece.len() == 1 && piece[0] == DOT) {
                    names.push(piece);
                    assert(names_of(names@) =~= before + seq![tail.take(n)]);
                }
                piece = Vec::new();
                start = i + 1;
                assert(components(path@) =~= names_of(names@) + components(
                    path@.skip(start as int),
                ));
            } else {
                piece.push(b);
            }
            i += 1;
            assert(piece@ =~= path@.subrange(start as int, i as int));
        }
        let ghost tail = path@.skip(start as int);
        let ghost before = names_of(names@);
        proof {
            lemma_run_length(tail, tail.len() as int);
            assert(tail.take(tail.len() as int) =~= piece@);
        }
        if piece.len() > 0 && !(piece.len() == 1 && piece[0] == DOT) {
            names.push(piece);
            assert(names_of(names@) =~= before + seq![tail.take(tail.len() as int)]);
        }
        assert(components(path@) =~= names_of(names@));
        Components { names }
    }

    /// The number of names.
    pub fn len(&self) -> (n: usize)
        ensures
            n == self@.len(),
    {
        self.names.len()
    }

    /// The name at position `i`.
    pub fn name(&self, i: usize) -> (name: &Vec<u8>)
        requires
            i < self@.len(),
        ensures
            name@ == self@[i as int],
    {
        &self.names[i]
    }

    /// The names from position `from` up to, not including, position `to`.
    pub fn range(&self, from: usize, to: usize) -> (c: Components)
        requires
            from <= to <= self@.len(),
        ensures
            c@ == self@.subrange(from as int, to as int),
    {
        let mut names: Vec<Vec<u8>> = Vec::new();
        let mut i: usize = from;
        while i < to
            invariant
                from <= i <= to <= self.names@.len(),
                names_of(names@) == self@.subrange(from as int, i as int),
            decreases to - i,
        {
            let ghost before = names_of(names@);
            names.push(copy_bytes(self.names[i].as_slice()));
            assert(names_of(names@) =~= before.push(self@[i as int]));
            assert(self@.subrange(from as int, i + 1) =~= before.push(self@[i as int]));
            i += 1;
        }
        Components { names }
    }

    /// These names followed by those of `other`.
    pub fn concat(&self, other: &Components) -> (c: Components)
        ensures
            c@ == self@ + other@,
    {
        let mut names: Vec<Vec<u8>> = Vec::new();
        let mut i: usize = 0;
        while i < self.names.len()
            invariant
                i <= self.names@.len(),
                names_of(names@) == self@.take(i as int),
            decreases self.names.len() - i,
        {
            let ghost before = names_of(names@);
            names.push(copy_bytes(self.names[i].as_slice()));
            assert(names_of(names@) =~= before.push(self@[i as int]));
            assert(self@.take(i + 1) =~= before.push(self@[i as int]));
            i += 1;
        }
        assert(self@.take(self@.len() as int) =~= self@);
        let mut k: usize = 0;
        while k < other.names.len()
            invariant
                k <= other.names@.len(),
                names_of(names@) == self@ + other@.take(k as int),
            decreases other.names.len() - k,
        {
            let ghost before = names_of(names@);
            names.push(copy_bytes(other.names[k].as_slice()));
            assert(names_of(names@) =~= before.push(other@[k as int]));
            assert(self@ + other@.take(k + 1) =~= before.push(other@[k as int]));
            k += 1;
        }
        assert(other@.take(other@.len() as int) =~= other@);
        Components { names }
    }

    /// The names joined by single separators, below the directory `base`.
    pub fn render_below(&self, base: &[u8]) -> (path: Vec<u8>)
        ensures
            path@ == below(base@, self@),
    {
        let mut path: Vec<u8> = copy_bytes(base);
        if base.len() > 0 && base[base.len() - 1] != SEPARATOR {
            path.push(SEPARATOR);
        }
        let mut i: usize = 0;
        assert(self@.take(0) =~= Seq::<Seq<u8>>::empty());
        assert(path@ =~= with_separator(base@) + joined(self@.take(0)));
        while i < self.names.len()
            invariant
                i <= self.names@.len(),
                path@ == with_separator(base@) + joined(self@.take(i as int)),
            decreases self.names.len() - i,
        {
            let ghost head = self@.take(i as int);
            let ghost so_far = path@;
            proof {
                lemma_joined_push(head, self@[i as int]);
                assert(self@.take(i + 1) =~= head.push(self@[i as int]));
            }
            if i > 0 {
                path.push(SEPARATOR);
            }
            let name = &self.names[i];
            let mut k: usize = 0;
            let ghost stem = path@;
            while k < name.len()
                invariant
                    k <= name@.len(),
                    path@ == stem + name@.take(k as int),
                decreases name.len() - k,
            {
                path.push(name[k]);
                assert(name@.take(k + 1) =~= name@.take(k as int).push(name@[k as int]));
                k += 1;
            }
            assert(name@.take(name@.len() as int) =~= name@);
            assert(path@ =~= with_separator(base@) + joined(self@.take(i + 1)));
            i += 1;
        }
        assert(self@.take(self@.len() as int) =~= self@);
        path
    }
}

} // verus!
