//! Pointer paths into the state document and the arguments matched from
//! path templates.
use vstd::prelude::*;
use vstd::string::*;

verus! {

/// Whether `s` is a JSON pointer: empty, or starting with `/`, with every
/// `~` followed by `0` or `1`.
pub open spec fn is_pointer(s: Seq<char>) -> bool {
    &&& s.len() > 0 ==> s[0] == '/'
    &&& forall|i: int|
        0 <= i < s.len() && #[trigger] s[i] == '~' ==> i + 1 < s.len() && (s[i + 1] == '0' || s[i
            + 1] == '1')
}

/// The index of the last `/` of `s`, or -1 where it has none.
pub open spec fn last_slash(s: Seq<char>) -> int
    decreases s.len(),
{
    if s.len() == 0 {
        -1
    } else if s.last() == '/' {
        s.len() - 1
    } else {
        last_slash(s.drop_last())
    }
}

/// The pointer to the parent of `s`: what stands before its last `/`.
pub open spec fn parent_of(s: Seq<char>) -> Option<Seq<char>> {
    if last_slash(s) < 0 {
        None
    } else {
        Some(s.take(last_slash(s)))
    }
}

/// The last `/` of a text is a `/` of it, and none comes after it.
pub proof fn lemma_last_slash(s: Seq<char>)
    ensures
        -1 <= last_slash(s) < s.len(),
        last_slash(s) >= 0 ==> s[last_slash(s)] == '/',
        forall|i: int| last_slash(s) < i < s.len() ==> s[i] != '/',
    decreases s.len(),
{
    if s.len() > 0 && s.last() != '/' {
        let rest = s.drop_last();
        lemma_last_slash(rest);
        assert forall|i: int| last_slash(s) < i < s.len() implies s[i] != '/' by {
            if i < rest.len() {
                assert(rest[i] == s[i]);
            }
        }
        if last_slash(rest) >= 0 {
            assert(rest[last_slash(rest)] == s[last_slash(rest)]);
        }
    }
}

/// The parent of a pointer is a pointer.
pub proof fn lemma_parent_is_pointer(s: Seq<char>)
    requires
        is_pointer(s),
        last_slash(s) >= 0,
    ensures
        is_pointer(s.take(last_slash(s))),
{
    lemma_last_slash(s);
    let k = last_slash(s);
    let p = s.take(k);
    assert forall|i: int| 0 <= i < p.len() && #[trigger] p[i] == '~' implies i + 1 < p.len() && (
    p[i + 1] == '0' || p[i + 1] == '1') by {
        assert(s[i] == '~');
        assert(s[i + 1] != '/');
    }
}

/// A pointer into the state document.
pub struct Path {
    text: String,
}

impl View for Path {
    type V = Seq<char>;

    closed spec fn view(&self) -> Seq<char> {
        self.text@
    }
}

impl Clone for Path {
    fn clone(&self) -> (r: Self)
        ensures
            r == *self,
    {
        proof {
            use_type_invariant(self);
        }
        Path { text: self.text.clone() }
    }
}

impl Path {
    #[verifier::type_invariant]
    spec fn well_formed(self) -> bool {
        is_pointer(self.text@)
    }

    /// The pointer to the root of the document.
    pub fn root() -> (r: Path)
        ensures
            r@ == Seq::<char>::empty(),
    {
        Path { text: String::new() }
    }

    /// The path that `s` spells, or `None` where `s` is no JSON pointer.
    pub fn parse(s: &str) -> (r: Option<Path>)
        ensures
            r is Some <==> is_pointer(s@),
            r is Some ==> r->0@ == s@,
    {
        let n = s.unicode_len();
        if n > 0 && s.get_char(0) != '/' {
            return None;
        }
        let mut i: usize = 0;
        while i < n
            invariant
                n == s@.len(),
                0 <= i <= n,
                forall|j: int|
                    0 <= j < i && #[trigger] s@[j] == '~' ==> j + 1 < n && (s@[j + 1] == '0'
                        || s@[j + 1] == '1'),
            decreases n - i,
        {
            if s.get_char(i) == '~' {
                if i + 1 >= n {
                    return None;
                }
                let next = s.get_char(i + 1);
                if next != '0' && next != '1' {
                    return None;
                }
            }
            i += 1;
        }
        Some(Path { text: String::from_str(s) })
    }

    /// The path that a literal spells.
    pub fn from_static(s: &'static str) -> (r: Path)
        requires
            is_pointer(s@),
        ensures
            r@ == s@,
    {
        Path { text: String::from_str(s) }
    }

    /// The text of the path, which is a JSON pointer.
    pub fn to_str(&self) -> (r: &str)
        ensures
            r@ == self@,
            is_pointer(self@),
    {
        proof {
            use_type_invariant(self);
        }
        self.text.as_str()
    }

    /// The text of the path.
    pub fn into_string(self) -> (r: String)
        ensures
            r@ == self@,
    {
        self.text
    }

    /// Whether the path points to the root of the document.
    pub fn is_root(&self) -> (r: bool)
        ensures
            r == (self@.len() == 0),
    {
        self.text.as_str().unicode_len() == 0
    }

    /// Whether the two paths point to the same place.
    pub fn same(&self, other: &Path) -> (r: bool)
        ensures
            r == (self@ == other@),
    {
        self.text == other.text
    }

    /// The pointer to the parent, or `None` for the root.
    pub fn parent(&self) -> (r: Option<Path>)
        ensures
            r is Some <==> parent_of(self@) is Some,
            r is Some ==> r->0@ == parent_of(self@)->0,
    {
        proof {
            use_type_invariant(self);
        }
        let s = self.text.as_str();
        let n = s.unicode_len();
        let mut i: usize = n;
        proof {
            assert(s@.take(n as int) == s@);
        }
        while i > 0
            invariant
                n == s@.len(),
                s@ == self@,
                is_pointer(s@),
                0 <= i <= n,
                last_slash(s@) == last_slash(s@.take(i as int)),
            decreases i,
        {
            proof {
                assert(s@.take(i as int).drop_last() == s@.take(i - 1));
                assert(s@.take(i as int).last() == s@[i - 1]);
            }
            if s.get_char(i - 1) == '/' {
                proof {
                    lemma_parent_is_pointer(s@);
                    assert(s@.subrange(0, i - 1) == s@.take(i - 1));
                }
                return Some(Path { text: String::from_str(s.substring_char(0, i - 1)) });
            }
            i -= 1;
        }
        proof {
            assert(s@.take(0).len() == 0);
        }
        None
    }
}

/// The arguments that a path template captured, in the template's order.
pub struct PathArgs(pub Vec<(String, String)>);

/// The arguments as pairs of name and value.
pub open spec fn args_model(args: Seq<(String, String)>) -> Seq<(Seq<char>, Seq<char>)> {
    args.map_values(|p: (String, String)| (p.0@, p.1@))
}

/// The index of the first argument named `key`, or the number of arguments.
pub open spec fn position_of(args: Seq<(Seq<char>, Seq<char>)>, key: Seq<char>) -> int
    decreases args.len(),
{
    if args.len() == 0 {
        0
    } else if args[0].0 == key {
        0
    } else {
        1 + position_of(args.drop_first(), key)
    }
}

/// The value of the first argument named `key`.
pub open spec fn value_of(args: Seq<(Seq<char>, Seq<char>)>, key: Seq<char>) -> Option<Seq<char>> {
    if position_of(args, key) < args.len() {
        Some(args[position_of(args, key)].1)
    } else {
        None
    }
}

/// The arguments with `key` bound to `value`: in place where `key` is
/// already bound, at the end otherwise.
pub open spec fn bind(args: Seq<(Seq<char>, Seq<char>)>, key: Seq<char>, value: Seq<char>) -> Seq<
    (Seq<char>, Seq<char>),
> {
    if position_of(args, key) < args.len() {
        args.update(position_of(args, key), (key, value))
    } else {
        args.push((key, value))
    }
}

/// The position of a name is the first index that holds it.
pub proof fn lemma_position_of(args: Seq<(Seq<char>, Seq<char>)>, key: Seq<char>)
    ensures
        0 <= position_of(args, key) <= args.len(),
        position_of(args, key) < args.len() ==> args[position_of(args, key)].0 == key,
        forall|i: int| 0 <= i < position_of(args, key) ==> args[i].0 != key,
    decreases args.len(),
{
    if args.len() > 0 && args[0].0 != key {
        let rest = args.drop_first();
        lemma_position_of(rest, key);
        assert forall|i: int| 0 <= i < position_of(args, key) implies args[i].0 != key by {
            if i > 0 {
                assert(args[i] == rest[i - 1]);
            }
        }
    }
}

/// The first index that holds `key` is its position.
pub proof fn lemma_position_found(args: Seq<(Seq<char>, Seq<char>)>, key: Seq<char>, k: int)
    requires
        0 <= k <= args.len(),
        forall|i: int| 0 <= i < k ==> args[i].0 != key,
        k < args.len() ==> args[k].0 == key,
    ensures
        position_of(args, key) == k,
{
    lemma_position_of(args, key);
}

impl View for PathArgs {
    type V = Seq<(Seq<char>, Seq<char>)>;

    open spec fn view(&self) -> Seq<(Seq<char>, Seq<char>)> {
        args_model(self.0@)
    }
}

impl PathArgs {
    /// No arguments.
    pub fn new() -> (r: PathArgs)
        ensures
            r@.len() == 0,
    {
        PathArgs(Vec::new())
    }

    /// The arguments in order.
    pub fn iter(&self) -> (r: &Vec<(String, String)>)
        ensures
            args_model(r@) == self@,
    {
        &self.0
    }

    /// The number of arguments.
    pub fn len(&self) -> (r: usize)
        ensures
            r == self@.len(),
    {
        self.0.len()
    }

    /// The index of the first argument named `key`.
    pub fn position(&self, key: &str) -> (r: usize)
        ensures
            r == position_of(self@, key@),
    {
        let wanted = String::from_str(key);
        let mut i: usize = 0;
        while i < self.0.len()
            invariant
                0 <= i <= self.0.len(),
                wanted@ == key@,
                forall|j: int| 0 <= j < i ==> self@[j].0 != key@,
            decreases self.0.len() - i,
        {
            if self.0[i].0 == wanted {
                proof {
                    lemma_position_found(self@, key@, i as int);
                }
                return i;
            }
            i += 1;
        }
        proof {
            lemma_position_found(self@, key@, i as int);
        }
        i
    }

    /// The value of the first argument named `key`.
    pub fn get(&self, key: &str) -> (r: Option<&String>)
        ensures
            r is Some <==> value_of(self@, key@) is Some,
            r is Some ==> r->0@ == value_of(self@, key@)->0,
    {
        let i = self.position(key);
        if i < self.0.len() {
            Some(&self.0[i].1)
        } else {
            None
        }
    }

    /// Binds `key` to `value`.
    pub fn insert(&mut self, key: &str, value: &str)
        ensures
            final(self)@ == bind(old(self)@, key@, value@),
    {
        let i = self.position(key);
        let entry = (String::from_str(key), String::from_str(value));
        if i < self.0.len() {
            self.0[i] = entry;
        } else {
            self.0.push(entry);
        }
        assert(self@ =~= bind(old(self)@, key@, value@));
    }

    /// A copy of the arguments.
    pub fn duplicate(&self) -> (r: PathArgs)
        ensures
            r@ == self@,
    {
        let mut out: Vec<(String, String)> = Vec::new();
        let mut i: usize = 0;
        while i < self.0.len()
            invariant
                0 <= i <= self.0.len(),
                out.len() == i,
                forall|j: int| 0 <= j < i ==> out@[j] == self.0@[j],
            decreases self.0.len() - i,
        {
            out.push((self.0[i].0.clone(), self.0[i].1.clone()));
            i += 1;
        }
        assert(args_model(out@) =~= self@);
        PathArgs(out)
    }
}

} // verus!
