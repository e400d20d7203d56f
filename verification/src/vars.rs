//! Variable namespaces and `{{name}}` placeholder substitution.
//!
//! A namespace is a map from variable names to string values.  Substitution
//! scans a text for `{{ ... }}` placeholders, trims the name inside, and
//! resolves it against a run-local namespace and a global one: an explicit
//! `env.` prefix restricts the search to the global namespace, an explicit
//! `run.` prefix to the run-local one, and a bare name is looked up in the
//! run-local namespace first, the global one second.  A placeholder whose
//! name resolves nowhere stays in the text verbatim, braces included.

use vstd::prelude::*;

use crate::text::{
    chars_to_string, is_space_char, str_to_chars, sub_chars, trim_chars, trim_spec,
};

verus! {

/// The map described by a sequence of key-value entries, later entries
/// overriding earlier ones.
pub open spec fn assoc_map(s: Seq<(Seq<char>, Seq<char>)>) -> Map<Seq<char>, Seq<char>>
    decreases s.len(),
{
    if s.len() == 0 {
        Map::empty()
    } else {
        assoc_map(s.drop_last()).insert(s.last().0, s.last().1)
    }
}

/// The value of the latest entry holding the key, if any.
pub open spec fn assoc_get(s: Seq<(Seq<char>, Seq<char>)>, k: Seq<char>) -> Option<Seq<char>>
    decreases s.len(),
{
    if s.len() == 0 {
        None
    } else if s.last().0 == k {
        Some(s.last().1)
    } else {
        assoc_get(s.drop_last(), k)
    }
}

proof fn lemma_assoc_get_is_map(s: Seq<(Seq<char>, Seq<char>)>, k: Seq<char>)
    ensures
        assoc_get(s, k) == (if assoc_map(s).dom().contains(k) {
            Some(assoc_map(s)[k])
        } else {
            None
        }),
    decreases s.len(),
{
    if s.len() > 0 {
        lemma_assoc_get_is_map(s.drop_last(), k);
    }
}

/// A string-to-string namespace.
pub struct VarMap {
    entries: Vec<(String, String)>,
}

impl View for VarMap {
    type V = Map<Seq<char>, Seq<char>>;

    closed spec fn view(&self) -> Map<Seq<char>, Seq<char>> {
        assoc_map(self.pairs())
    }
}

impl VarMap {
    /// The entries in insertion order.
    pub closed spec fn pairs(&self) -> Seq<(Seq<char>, Seq<char>)> {
        Seq::new(
            self.entries@.len(),
            |i: int|
                if 0 <= i < self.entries@.len() {
                    (self.entries@[i].0@, self.entries@[i].1@)
                } else {
                    (Seq::empty(), Seq::empty())
                },
        )
    }

    /// An empty namespace.
    pub fn new() -> (r: Self)
        ensures
            r@ == Map::<Seq<char>, Seq<char>>::empty(),
            r.pairs() == Seq::<(Seq<char>, Seq<char>)>::empty(),
    {
        let r = VarMap { entries: Vec::new() };
        proof {
            assert(r.pairs() =~= Seq::<(Seq<char>, Seq<char>)>::empty());
        }
        r
    }

    /// Binds a name to a value, overriding an earlier binding of the name.
    pub fn insert(&mut self, key: String, value: String)
        ensures
            final(self)@ == old(self)@.insert(key@, value@),
            final(self).pairs() == old(self).pairs().push((key@, value@)),
    {
        let ghost gk = key@;
        let ghost gv = value@;
        self.entries.push((key, value));
        proof {
            assert(self.pairs() =~= old(self).pairs().push((gk, gv)));
            assert(self.pairs().drop_last() =~= old(self).pairs());
        }
    }

    /// The number of entries.
    pub fn len(&self) -> (n: usize)
        ensures
            n == self.pairs().len(),
    {
        self.entries.len()
    }

    /// The name of the entry at the given position.
    pub fn key_at(&self, i: usize) -> (r: &String)
        requires
            i < self.pairs().len(),
        ensures
            r@ == self.pairs()[i as int].0,
    {
        &self.entries[i].0
    }

    /// The value of the entry at the given position.
    pub fn val_at(&self, i: usize) -> (r: &String)
        requires
            i < self.pairs().len(),
        ensures
            r@ == self.pairs()[i as int].1,
    {
        &self.entries[i].1
    }

    /// Looks a name up.
    pub fn get(&self, key: &String) -> (r: Option<&String>)
        ensures
            match r {
                Some(v) => self@.dom().contains(key@) && v@ == self@[key@],
                None => !self@.dom().contains(key@),
            },
    {
        let mut i = self.entries.len();
        proof {
            assert(self.pairs().subrange(0, self.pairs().len() as int) =~= self.pairs());
        }
        while i > 0
            invariant
                i <= self.pairs().len(),
                assoc_get(self.pairs(), key@) == assoc_get(
                    self.pairs().subrange(0, i as int),
                    key@,
                ),
            decreases i,
        {
            if self.entries[i - 1].0 == *key {
                proof {
                    let sub = self.pairs().subrange(0, i as int);
                    assert(sub.last() == self.pairs()[i - 1]);
                    assert(assoc_get(sub, key@) == Some(self.pairs()[i - 1].1));
                    lemma_assoc_get_is_map(self.pairs(), key@);
                }
                return Some(&self.entries[i - 1].1);
            }
            proof {
                let sub = self.pairs().subrange(0, i as int);
                assert(sub.last() == self.pairs()[i - 1]);
                assert(sub.drop_last() =~= self.pairs().subrange(0, i - 1));
                assert(assoc_get(sub, key@) == assoc_get(sub.drop_last(), key@));
            }
            i = i - 1;
        }
        proof {
            assert(self.pairs().subrange(0, 0) =~= Seq::<(Seq<char>, Seq<char>)>::empty());
            lemma_assoc_get_is_map(self.pairs(), key@);
        }
        None
    }

    /// Whether a name is bound.
    pub fn contains(&self, key: &String) -> (b: bool)
        ensures
            b == self@.dom().contains(key@),
    {
        match self.get(key) {
            Some(_) => true,
            None => false,
        }
    }

    /// An independent copy of the namespace.
    pub fn duplicate(&self) -> (r: Self)
        ensures
            r@ == self@,
            r.pairs() == self.pairs(),
    {
        let mut entries: Vec<(String, String)> = Vec::new();
        let mut i: usize = 0;
        while i < self.entries.len()
            invariant
                i <= self.entries@.len(),
                entries@.len() == i,
                forall|j: int|
                    0 <= j < i ==> #[trigger] entries@[j].0@ == self.pairs()[j].0 && entries@[j].1@
                        == self.pairs()[j].1,
            decreases self.entries@.len() - i,
        {
            let k = self.entries[i].0.clone();
            let v = self.entries[i].1.clone();
            entries.push((k, v));
            i = i + 1;
        }
        let r = VarMap { entries };
        proof {
            assert(r.pairs() =~= self.pairs());
        }
        r
    }
}

/// The namespace's map is the fold of its entries.
pub proof fn lemma_view_of_pairs(m: &VarMap)
    ensures
        m@ == assoc_map(m.pairs()),
{
}

/// Whether an opening `{{` stands at the position.
pub open spec fn is_open_at(s: Seq<char>, i: int) -> bool {
    0 <= i && i + 2 <= s.len() && s[i] == '{' && s[i + 1] == '{'
}

/// Whether a closing `}}` stands at the position.
pub open spec fn is_close_at(s: Seq<char>, i: int) -> bool {
    0 <= i && i + 2 <= s.len() && s[i] == '}' && s[i + 1] == '}'
}

/// The first position at or after `from` where `{{` stands.
pub open spec fn find_open(s: Seq<char>, from: int) -> Option<int>
    decreases s.len() - from,
{
    if from < 0 || from + 2 > s.len() {
        None
    } else if is_open_at(s, from) {
        Some(from)
    } else {
        find_open(s, from + 1)
    }
}

/// The first position at or after `from` where `}}` stands.
pub open spec fn find_close(s: Seq<char>, from: int) -> Option<int>
    decreases s.len() - from,
{
    if from < 0 || from + 2 > s.len() {
        None
    } else if is_close_at(s, from) {
        Some(from)
    } else {
        find_close(s, from + 1)
    }
}

pub proof fn lemma_find_open_bounds(s: Seq<char>, from: int)
    ensures
        find_open(s, from) matches Some(p) ==> from <= p && p + 2 <= s.len() && is_open_at(s, p),
    decreases s.len() - from,
{
    if !(from < 0 || from + 2 > s.len()) && !is_open_at(s, from) {
        lemma_find_open_bounds(s, from + 1);
    }
}

pub proof fn lemma_find_close_bounds(s: Seq<char>, from: int)
    ensures
        find_close(s, from) matches Some(q) ==> from <= q && q + 2 <= s.len() && is_close_at(s, q),
    decreases s.len() - from,
{
    if !(from < 0 || from + 2 > s.len()) && !is_close_at(s, from) {
        lemma_find_close_bounds(s, from + 1);
    }
}

/// The first close at or after `from`, when nothing earlier matches.
pub proof fn lemma_find_close_first(s: Seq<char>, from: int, q: int)
    requires
        0 <= from <= q,
        is_close_at(s, q),
        forall|i: int| from <= i < q ==> !is_close_at(s, i),
    ensures
        find_close(s, from) == Some(q),
    decreases q - from,
{
    if from < q {
        lemma_find_close_first(s, from + 1, q);
    }
}

/// Whether the sequence holds a line break.
pub open spec fn has_newline(s: Seq<char>) -> bool {
    exists|i: int| 0 <= i < s.len() && s[i] == '\n'
}

/// The name inside a placeholder resolved against the two namespaces:
/// an `env.` prefix restricts the search to the global namespace, a `run.`
/// prefix to the run-local one, and a bare name is searched in the
/// run-local namespace first, then the global one.
pub open spec fn lookup_key(
    key: Seq<char>,
    run_vars: Map<Seq<char>, Seq<char>>,
    env_vars: Map<Seq<char>, Seq<char>>,
) -> Option<Seq<char>> {
    if key.len() >= 4 && key[0] == 'e' && key[1] == 'n' && key[2] == 'v' && key[3] == '.' {
        let name = key.subrange(4, key.len() as int);
        if env_vars.dom().contains(name) {
            Some(env_vars[name])
        } else {
            None
        }
    } else if key.len() >= 4 && key[0] == 'r' && key[1] == 'u' && key[2] == 'n' && key[3] == '.' {
        let name = key.subrange(4, key.len() as int);
        if run_vars.dom().contains(name) {
            Some(run_vars[name])
        } else {
            None
        }
    } else if run_vars.dom().contains(key) {
        Some(run_vars[key])
    } else if env_vars.dom().contains(key) {
        Some(env_vars[key])
    } else {
        None
    }
}

/// The text from `from` on with every placeholder substituted.
///
/// A placeholder opens at the first `{{`, closes at the first `}}` after
/// it, and its name is the text between the braces with surrounding
/// whitespace removed.  A name holding a line break is no placeholder: the
/// single `{` is kept and the scan goes on behind it.  A name that
/// resolves nowhere leaves the whole placeholder in place.
pub open spec fn subst_from(
    s: Seq<char>,
    from: int,
    run_vars: Map<Seq<char>, Seq<char>>,
    env_vars: Map<Seq<char>, Seq<char>>,
) -> Seq<char>
    decreases s.len() - from, s.len() - from,
    via subst_from_decreases
{
    if from < 0 || from >= s.len() {
        Seq::empty()
    } else {
        match find_open(s, from) {
            None => s.subrange(from, s.len() as int),
            Some(p) => match find_close(s, p + 2) {
                None => s.subrange(from, s.len() as int),
                Some(q) => {
                    let core = trim_spec(s.subrange(p + 2, q));
                    if has_newline(core) {
                        s.subrange(from, p + 1) + subst_from(s, p + 1, run_vars, env_vars)
                    } else {
                        let replaced = match lookup_key(core, run_vars, env_vars) {
                            Some(v) => v,
                            None => s.subrange(p, q + 2),
                        };
                        s.subrange(from, p) + replaced + subst_from(s, q + 2, run_vars, env_vars)
                    }
                },
            },
        }
    }
}

#[via_fn]
proof fn subst_from_decreases(
    s: Seq<char>,
    from: int,
    run_vars: Map<Seq<char>, Seq<char>>,
    env_vars: Map<Seq<char>, Seq<char>>,
) {
    lemma_find_open_bounds(s, from);
    match find_open(s, from) {
        Some(p) => lemma_find_close_bounds(s, p + 2),
        None => (),
    }
}

/// The whole text with every placeholder substituted.
pub open spec fn substitute_spec(
    s: Seq<char>,
    run_vars: Map<Seq<char>, Seq<char>>,
    env_vars: Map<Seq<char>, Seq<char>>,
) -> Seq<char> {
    subst_from(s, 0, run_vars, env_vars)
}

/// Finds the next `{{` at or after `from`.
fn find_open_chars(v: &Vec<char>, from: usize) -> (r: Option<usize>)
    ensures
        match r {
            Some(p) => find_open(v@, from as int) == Some(p as int) && from <= p && p + 2 <= v@.len()
                && is_open_at(v@, p as int),
            None => find_open(v@, from as int) is None,
        },
{
    let mut i = from;
    loop
        invariant_except_break
            from <= i,
            find_open(v@, from as int) == find_open(v@, i as int),
        ensures
            match find_open(v@, from as int) {
                Some(p) => from <= p && p + 2 <= v@.len() && is_open_at(v@, p as int) && i == p,
                None => i + 2 > v@.len(),
            },
        decreases v@.len() - i,
    {
        if v.len() < 2 || i > v.len() - 2 {
            proof {
                lemma_find_open_bounds(v@, i as int);
            }
            break ;
        }
        if v[i] == '{' && v[i + 1] == '{' {
            break ;
        }
        i = i + 1;
    }
    if v.len() >= 2 && i <= v.len() - 2 {
        Some(i)
    } else {
        None
    }
}

/// Finds the next `}}` at or after `from`.
fn find_close_chars(v: &Vec<char>, from: usize) -> (r: Option<usize>)
    ensures
        match r {
            Some(q) => find_close(v@, from as int) == Some(q as int) && from <= q && q + 2
                <= v@.len() && is_close_at(v@, q as int),
            None => find_close(v@, from as int) is None,
        },
{
    let mut i = from;
    loop
        invariant_except_break
            from <= i,
            find_close(v@, from as int) == find_close(v@, i as int),
        ensures
            match find_close(v@, from as int) {
                Some(q) => from <= q && q + 2 <= v@.len() && is_close_at(v@, q as int) && i == q,
                None => i + 2 > v@.len(),
            },
        decreases v@.len() - i,
    {
        if v.len() < 2 || i > v.len() - 2 {
            proof {
                lemma_find_close_bounds(v@, i as int);
            }
            break ;
        }
        if v[i] == '}' && v[i + 1] == '}' {
            break ;
        }
        i = i + 1;
    }
    if v.len() >= 2 && i <= v.len() - 2 {
        Some(i)
    } else {
        None
    }
}

/// Whether the characters hold a line break.
fn contains_newline(v: &Vec<char>) -> (b: bool)
    ensures
        b == has_newline(v@),
{
    let mut i: usize = 0;
    while i < v.len()
        invariant
            i <= v@.len(),
            forall|j: int| 0 <= j < i ==> v@[j] != '\n',
        decreases v@.len() - i,
    {
        if v[i] == '\n' {
            return true;
        }
        i = i + 1;
    }
    false
}

/// Substitutes every placeholder in the characters against the two
/// namespaces.
pub fn substitute_chars(v: &Vec<char>, run_vars: &VarMap, env_vars: &VarMap) -> (out: Vec<char>)
    ensures
        out@ == substitute_spec(v@, run_vars@, env_vars@),
{
    let mut out: Vec<char> = Vec::new();
    let mut i: usize = 0;
    while i < v.len()
        invariant
            i <= v@.len(),
            substitute_spec(v@, run_vars@, env_vars@) =~= out@ + subst_from(
                v@,
                i as int,
                run_vars@,
                env_vars@,
            ),
        decreases v@.len() - i,
    {
        let ghost pre = out@;
        match find_open_chars(v, i) {
            None => {
                let mut rest = sub_chars(v, i, v.len());
                out.append(&mut rest);
                proof {
                    assert(out@ =~= pre + v@.subrange(i as int, v@.len() as int));
                }
                i = v.len();
            },
            Some(p) => {
                match find_close_chars(v, p + 2) {
                    None => {
                        let mut rest = sub_chars(v, i, v.len());
                        out.append(&mut rest);
                        proof {
                            assert(out@ =~= pre + v@.subrange(i as int, v@.len() as int));
                        }
                        i = v.len();
                    },
                    Some(q) => {
                        let inner = sub_chars(v, p + 2, q);
                        let core = trim_chars(&inner);
                        if contains_newline(&core) {
                            let mut chunk = sub_chars(v, i, p + 1);
                            out.append(&mut chunk);
                            proof {
                                assert(out@ =~= pre + v@.subrange(i as int, p + 1));
                            }
                            i = p + 1;
                        } else {
                            let mut chunk = sub_chars(v, i, p);
                            out.append(&mut chunk);
                            match resolve_scoped(&core, run_vars, env_vars) {
                                Some(value) => {
                                    let mut rep = str_to_chars(value.as_str());
                                    out.append(&mut rep);
                                    proof {
                                        assert(out@ =~= pre + v@.subrange(i as int, p as int)
                                            + value@);
                                    }
                                },
                                None => {
                                    let mut rep = sub_chars(v, p, q + 2);
                                    out.append(&mut rep);
                                    proof {
                                        assert(out@ =~= pre + v@.subrange(i as int, p as int)
                                            + v@.subrange(p as int, q + 2));
                                    }
                                },
                            }
                            i = q + 2;
                        }
                    },
                }
            },
        }
    }
    proof {
        assert(subst_from(v@, i as int, run_vars@, env_vars@) == Seq::<char>::empty());
        assert(out@ =~= substitute_spec(v@, run_vars@, env_vars@));
    }
    out
}

proof fn lemma_find_open_none(s: Seq<char>, from: int)
    requires
        forall|i: int| !is_open_at(s, i),
    ensures
        find_open(s, from) is None,
    decreases s.len() - from,
{
    if !(from < 0 || from + 2 > s.len()) {
        lemma_find_open_none(s, from + 1);
    }
}

/// A text without any `{{` comes back from substitution unchanged.
pub proof fn lemma_substitute_without_placeholders(
    s: Seq<char>,
    run_vars: Map<Seq<char>, Seq<char>>,
    env_vars: Map<Seq<char>, Seq<char>>,
)
    requires
        forall|i: int| !is_open_at(s, i),
    ensures
        substitute_spec(s, run_vars, env_vars) == s,
{
    lemma_find_open_none(s, 0);
    if s.len() == 0 {
        assert(substitute_spec(s, run_vars, env_vars) =~= s);
    } else {
        assert(s.subrange(0, s.len() as int) =~= s);
    }
}

proof fn lemma_find_close_none(s: Seq<char>, from: int)
    requires
        forall|i: int| !is_close_at(s, i),
    ensures
        find_close(s, from) is None,
    decreases s.len() - from,
{
    if !(from < 0 || from + 2 > s.len()) {
        lemma_find_close_none(s, from + 1);
    }
}

/// A text in which no `}}` stands anywhere comes back from substitution
/// unchanged, whatever opening braces it holds.
pub proof fn lemma_substitute_without_close(
    s: Seq<char>,
    run_vars: Map<Seq<char>, Seq<char>>,
    env_vars: Map<Seq<char>, Seq<char>>,
)
    requires
        forall|i: int| !is_close_at(s, i),
    ensures
        substitute_spec(s, run_vars, env_vars) == s,
{
    if s.len() == 0 {
        assert(substitute_spec(s, run_vars, env_vars) =~= s);
    } else {
        match find_open(s, 0) {
            None => {
                assert(s.subrange(0, s.len() as int) =~= s);
            },
            Some(p) => {
                lemma_find_open_bounds(s, 0);
                lemma_find_close_none(s, p + 2);
                assert(s.subrange(0, s.len() as int) =~= s);
            },
        }
    }
}

/// A bare name bound in both namespaces resolves to the run-local value.
pub proof fn lemma_resolution_precedence(
    key: Seq<char>,
    run_vars: Map<Seq<char>, Seq<char>>,
    env_vars: Map<Seq<char>, Seq<char>>,
)
    requires
        run_vars.dom().contains(key),
        !(key.len() >= 4 && key[0] == 'e' && key[1] == 'n' && key[2] == 'v' && key[3] == '.'),
        !(key.len() >= 4 && key[0] == 'r' && key[1] == 'u' && key[2] == 'n' && key[3] == '.'),
    ensures
        lookup_key(key, run_vars, env_vars) == Some(run_vars[key]),
{
}

/// A single placeholder whose name resolves nowhere stays in the text
/// verbatim, braces included.
pub proof fn lemma_unresolved_placeholder(
    inner: Seq<char>,
    run_vars: Map<Seq<char>, Seq<char>>,
    env_vars: Map<Seq<char>, Seq<char>>,
)
    requires
        forall|i: int| !is_close_at(inner, i),
        inner.len() > 0 ==> inner.last() != '}',
        !has_newline(trim_spec(inner)),
        lookup_key(trim_spec(inner), run_vars, env_vars) is None,
    ensures
        substitute_spec(seq!['{', '{'] + inner + seq!['}', '}'], run_vars, env_vars) == seq![
            '{',
            '{',
        ] + inner + seq!['}', '}'],
{
    let s = seq!['{', '{'] + inner + seq!['}', '}'];
    let len = inner.len() as int;
    assert(s.len() == len + 4);
    assert(s[0] == '{' && s[1] == '{');
    assert(is_open_at(s, 0));
    assert(find_open(s, 0) == Some(0int));
    assert(is_close_at(s, len + 2));
    assert forall|i: int| 2 <= i < len + 2 implies !is_close_at(s, i) by {
        if i <= len {
            assert(s[i] == inner[i - 2]);
            assert(s[i + 1] == inner[i - 1]);
            assert(!is_close_at(inner, i - 2));
        } else {
            assert(i == len + 1);
            assert(s[i] == inner[len - 1]);
            assert(inner.last() != '}');
        }
    }
    lemma_find_close_first(s, 2, len + 2);
    assert(s.subrange(2, len + 2) =~= inner);
    let core = trim_spec(inner);
    assert(subst_from(s, len + 4, run_vars, env_vars) == Seq::<char>::empty());
    assert(s.subrange(0, 0) =~= Seq::<char>::empty());
    assert(s.subrange(0, len + 4) =~= s);
    assert(substitute_spec(s, run_vars, env_vars) =~= s);
}

/// Resolves a placeholder name against the two namespaces, the run-local
/// one shadowing the global one for bare names.
pub fn resolve_scoped(key: &Vec<char>, run_vars: &VarMap, env_vars: &VarMap) -> (r: Option<
    String,
>)
    ensures
        match r {
            Some(v) => lookup_key(key@, run_vars@, env_vars@) == Some(v@),
            None => lookup_key(key@, run_vars@, env_vars@) is None,
        },
{
    if key.len() >= 4 && key[0] == 'e' && key[1] == 'n' && key[2] == 'v' && key[3] == '.' {
        let tail = sub_chars(key, 4, key.len());
        let name = chars_to_string(&tail);
        match env_vars.get(&name) {
            Some(v) => Some(v.clone()),
            None => None,
        }
    } else if key.len() >= 4 && key[0] == 'r' && key[1] == 'u' && key[2] == 'n' && key[3]
        == '.' {
        let tail = sub_chars(key, 4, key.len());
        let name = chars_to_string(&tail);
        match run_vars.get(&name) {
            Some(v) => Some(v.clone()),
            None => None,
        }
    } else {
        let name = chars_to_string(key);
        match run_vars.get(&name) {
            Some(v) => Some(v.clone()),
            None => match env_vars.get(&name) {
                Some(v) => Some(v.clone()),
                None => None,
            },
        }
    }
}

} // verus!
