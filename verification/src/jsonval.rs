//! A dynamic JSON value and its mathematical model.
//!
//! `JsonValue` is the crate's own tagged union for parsed JSON documents.
//! Numbers are carried as their canonical decimal rendering, so that two
//! numbers are equal exactly when their renderings are; object fields keep
//! the order in which they were produced (parsed documents hold their keys
//! in sorted order).

use vstd::prelude::*;

use crate::text::{chars_to_string, dec_rep, str_to_chars, sub_chars};

verus! {

/// A parsed JSON document.
pub enum JsonValue {
    Null,
    Bool(bool),
    Num(String),
    Str(String),
    Arr(Vec<JsonValue>),
    Obj(Vec<(String, JsonValue)>),
}

/// The mathematical shape of a JSON document: the same tree over sequences.
pub enum JNode {
    Null,
    Bool(bool),
    Num(Seq<char>),
    Str(Seq<char>),
    Arr(Seq<JNode>),
    Obj(Seq<(Seq<char>, JNode)>),
}

/// The model of one document.
pub open spec fn jmodel(v: JsonValue) -> JNode
    decreases v,
{
    match v {
        JsonValue::Null => JNode::Null,
        JsonValue::Bool(b) => JNode::Bool(b),
        JsonValue::Num(s) => JNode::Num(s@),
        JsonValue::Str(s) => JNode::Str(s@),
        JsonValue::Arr(items) => JNode::Arr(arr_model(items@)),
        JsonValue::Obj(fields) => JNode::Obj(obj_model(fields@)),
    }
}

/// The models of an array's elements, in order.
pub open spec fn arr_model(items: Seq<JsonValue>) -> Seq<JNode>
    decreases items,
{
    if items.len() == 0 {
        Seq::empty()
    } else {
        seq![jmodel(items[0])] + arr_model(items.drop_first())
    }
}

/// The models of an object's fields, in order.
pub open spec fn obj_model(fields: Seq<(String, JsonValue)>) -> Seq<(Seq<char>, JNode)>
    decreases fields,
{
    if fields.len() == 0 {
        Seq::empty()
    } else {
        seq![(fields[0].0@, jmodel(fields[0].1))] + obj_model(fields.drop_first())
    }
}

impl View for JsonValue {
    type V = JNode;

    open spec fn view(&self) -> JNode {
        jmodel(*self)
    }
}

/// The shape of an array model, element for element.
pub proof fn lemma_arr_model(items: Seq<JsonValue>)
    ensures
        arr_model(items).len() == items.len(),
        forall|i: int| 0 <= i < items.len() ==> arr_model(items)[i] == jmodel(#[trigger] items[i]),
    decreases items.len(),
{
    if items.len() > 0 {
        lemma_arr_model(items.drop_first());
        assert forall|i: int| 0 <= i < items.len() implies arr_model(items)[i] == jmodel(
            #[trigger] items[i],
        ) by {
            if i > 0 {
                assert(items.drop_first()[i - 1] == items[i]);
            }
        }
    }
}

/// The shape of an object model, field for field.
pub proof fn lemma_obj_model(fields: Seq<(String, JsonValue)>)
    ensures
        obj_model(fields).len() == fields.len(),
        forall|i: int|
            0 <= i < fields.len() ==> obj_model(fields)[i] == (
                (#[trigger] fields[i]).0@,
                jmodel(fields[i].1),
            ),
    decreases fields.len(),
{
    if fields.len() > 0 {
        lemma_obj_model(fields.drop_first());
        assert forall|i: int|
            0 <= i < fields.len() implies obj_model(fields)[i] == (
            (#[trigger] fields[i]).0@,
            jmodel(fields[i].1),
        ) by {
            if i > 0 {
                assert(fields.drop_first()[i - 1] == fields[i]);
            }
        }
    }
}

/// Whether a document is a leaf: neither an object nor an array.
pub open spec fn is_leaf(n: JNode) -> bool {
    !(n is Arr) && !(n is Obj)
}

/// The first position at or after `from` holding the character.
pub open spec fn find_char(s: Seq<char>, from: int, c: char) -> Option<int>
    decreases s.len() - from,
{
    if from < 0 || from >= s.len() {
        None
    } else if s[from] == c {
        Some(from)
    } else {
        find_char(s, from + 1, c)
    }
}

pub proof fn lemma_find_char_bounds(s: Seq<char>, from: int, c: char)
    ensures
        find_char(s, from, c) matches Some(i) ==> from <= i < s.len() && s[i] == c,
    decreases s.len() - from,
{
    if !(from < 0 || from >= s.len()) && s[from] != c {
        lemma_find_char_bounds(s, from + 1, c);
    }
}

/// The pieces of `s` from `from` on, cut at every `/`.
pub open spec fn split_from(s: Seq<char>, from: int) -> Seq<Seq<char>>
    decreases s.len() - from,
    via split_from_decreases
{
    if from < 0 || from > s.len() {
        Seq::empty()
    } else {
        match find_char(s, from, '/') {
            None => seq![s.subrange(from, s.len() as int)],
            Some(i) => seq![s.subrange(from, i)] + split_from(s, i + 1),
        }
    }
}

#[via_fn]
proof fn split_from_decreases(s: Seq<char>, from: int) {
    lemma_find_char_bounds(s, from, '/');
}

/// The two-character pattern `ab` replaced by `r` throughout, scanning
/// left to right without overlap.
pub open spec fn replace_pair(s: Seq<char>, a: char, b: char, r: char) -> Seq<char>
    decreases s.len(),
{
    if s.len() >= 2 && s[0] == a && s[1] == b {
        seq![r] + replace_pair(s.subrange(2, s.len() as int), a, b, r)
    } else if s.len() == 0 {
        s
    } else {
        seq![s[0]] + replace_pair(s.drop_first(), a, b, r)
    }
}

/// A pointer token with its escapes undone: `~1` stands for `/` and,
/// afterwards, `~0` for `~`.
pub open spec fn unescape_token(tok: Seq<char>) -> Seq<char> {
    replace_pair(replace_pair(tok, '~', '1', '/'), '~', '0', '~')
}

/// Whether the character is a decimal digit.
pub open spec fn is_digit(c: char) -> bool {
    '0' <= c && c <= '9'
}

/// The value of a digit string, most significant digit first.
pub open spec fn dec_value(s: Seq<char>) -> int
    decreases s.len(),
{
    if s.len() == 0 {
        0
    } else {
        dec_value(s.drop_last()) * 10 + (s.last() as int - 48)
    }
}

/// The array index a pointer token denotes: digits only, no sign, no
/// leading zero, and a value that fits the machine.
pub open spec fn token_index(tok: Seq<char>) -> Option<int> {
    if tok.len() == 0 {
        None
    } else if tok[0] == '+' {
        None
    } else if tok[0] == '0' && tok.len() != 1 {
        None
    } else if !(forall|i: int| 0 <= i < tok.len() ==> is_digit(#[trigger] tok[i])) {
        None
    } else if dec_value(tok) > usize::MAX {
        None
    } else {
        Some(dec_value(tok))
    }
}

/// The first value in an object under the key, if any.
pub open spec fn obj_get(fields: Seq<(Seq<char>, JNode)>, key: Seq<char>) -> Option<JNode>
    decreases fields.len(),
{
    if fields.len() == 0 {
        None
    } else if fields[0].0 == key {
        Some(fields[0].1)
    } else {
        obj_get(fields.drop_first(), key)
    }
}

/// Walks the document down a list of reference tokens: object keys and
/// array indices, each token unescaped first.
pub open spec fn descend(n: JNode, tokens: Seq<Seq<char>>) -> Option<JNode>
    decreases tokens.len(),
{
    if tokens.len() == 0 {
        Some(n)
    } else {
        let tok = unescape_token(tokens[0]);
        match n {
            JNode::Obj(fields) => match obj_get(fields, tok) {
                Some(child) => descend(child, tokens.drop_first()),
                None => None,
            },
            JNode::Arr(items) => match token_index(tok) {
                Some(i) => if i < items.len() {
                    descend(items[i], tokens.drop_first())
                } else {
                    None
                },
                None => None,
            },
            _ => None,
        }
    }
}

/// The value a JSON pointer addresses: the empty pointer is the document
/// itself, any other pointer must start with `/`.
pub open spec fn pointer_spec(n: JNode, path: Seq<char>) -> Option<JNode> {
    if path.len() == 0 {
        Some(n)
    } else if path[0] != '/' {
        None
    } else {
        descend(n, split_from(path, 1))
    }
}

/// The value under a bare key: a plain object lookup, nothing else.
pub open spec fn key_lookup_spec(n: JNode, key: Seq<char>) -> Option<JNode> {
    match n {
        JNode::Obj(fields) => obj_get(fields, key),
        _ => None,
    }
}

/// Replaces the two-character pattern `ab` by `r` throughout.
fn replace_pair_chars(v: &Vec<char>, a: char, b: char, r: char) -> (out: Vec<char>)
    ensures
        out@ == replace_pair(v@, a, b, r),
{
    let mut out: Vec<char> = Vec::new();
    let mut i: usize = 0;
    proof {
        assert(v@.subrange(0, v@.len() as int) =~= v@);
    }
    while i < v.len()
        invariant
            i <= v@.len(),
            replace_pair(v@, a, b, r) =~= out@ + replace_pair(
                v@.subrange(i as int, v@.len() as int),
                a,
                b,
                r,
            ),
        decreases v@.len() - i,
    {
        let ghost rest = v@.subrange(i as int, v@.len() as int);
        if i + 1 < v.len() && v[i] == a && v[i + 1] == b {
            out.push(r);
            proof {
                assert(rest.subrange(2, rest.len() as int) =~= v@.subrange(
                    i + 2,
                    v@.len() as int,
                ));
            }
            i = i + 2;
        } else {
            out.push(v[i]);
            proof {
                assert(rest.drop_first() =~= v@.subrange(i + 1, v@.len() as int));
            }
            i = i + 1;
        }
    }
    proof {
        assert(v@.subrange(i as int, v@.len() as int) =~= Seq::<char>::empty());
        assert(out@ =~= replace_pair(v@, a, b, r));
    }
    out
}

/// Undoes the pointer escapes in a reference token.
fn unescape_chars(tok: &Vec<char>) -> (out: Vec<char>)
    ensures
        out@ == unescape_token(tok@),
{
    let pass = replace_pair_chars(tok, '~', '1', '/');
    replace_pair_chars(&pass, '~', '0', '~')
}

proof fn lemma_dec_value_nonneg(s: Seq<char>)
    requires
        forall|i: int| 0 <= i < s.len() ==> is_digit(#[trigger] s[i]),
    ensures
        dec_value(s) >= 0,
    decreases s.len(),
{
    if s.len() > 0 {
        assert(forall|i: int|
            0 <= i < s.drop_last().len() ==> is_digit(#[trigger] s.drop_last()[i]));
        lemma_dec_value_nonneg(s.drop_last());
    }
}

proof fn lemma_dec_value_monotone(s: Seq<char>, j: int)
    requires
        0 <= j <= s.len(),
        forall|i: int| 0 <= i < s.len() ==> is_digit(#[trigger] s[i]),
    ensures
        dec_value(s) >= dec_value(s.subrange(0, j)),
    decreases s.len() - j,
{
    if j == s.len() {
        assert(s.subrange(0, j) =~= s);
    } else {
        lemma_dec_value_monotone(s, j + 1);
        let t = s.subrange(0, j + 1);
        assert(t.drop_last() =~= s.subrange(0, j));
        assert(forall|i: int| 0 <= i < t.len() ==> is_digit(#[trigger] t[i]));
        assert(forall|i: int|
            0 <= i < t.drop_last().len() ==> is_digit(#[trigger] t.drop_last()[i]));
        lemma_dec_value_nonneg(t.drop_last());
        assert(dec_value(t) == dec_value(t.drop_last()) * 10 + (t.last() as int - 48));
        assert(dec_value(t) >= dec_value(t.drop_last()));
    }
}

/// Parses a reference token as an array index, rejecting signs, leading
/// zeros and values that do not fit the machine.
fn token_index_chars(tok: &Vec<char>) -> (r: Option<usize>)
    ensures
        match r {
            Some(i) => token_index(tok@) == Some(i as int),
            None => token_index(tok@) is None,
        },
{
    if tok.len() == 0 {
        return None;
    }
    if tok[0] == '+' {
        return None;
    }
    if tok[0] == '0' && tok.len() != 1 {
        return None;
    }
    let mut acc: u128 = 0;
    let mut i: usize = 0;
    let limit: u128 = usize::MAX as u128;
    while i < tok.len()
        invariant
            i <= tok@.len(),
            forall|j: int| 0 <= j < i ==> is_digit(#[trigger] tok@[j]),
            acc == dec_value(tok@.subrange(0, i as int)),
            acc <= usize::MAX as u128,
            limit == usize::MAX as u128,
        decreases tok@.len() - i,
    {
        let c = tok[i];
        if !(c >= '0' && c <= '9') {
            return None;
        }
        let d: u128 = (c as u8 - 48) as u128;
        let next: u128 = acc * 10 + d;
        proof {
            let t = tok@.subrange(0, i + 1);
            assert(t.drop_last() =~= tok@.subrange(0, i as int));
            assert(t.last() == tok@[i as int]);
            assert(next == dec_value(t));
        }
        if next > limit {
            proof {
                if (forall|j: int| 0 <= j < tok@.len() ==> is_digit(#[trigger] tok@[j])) {
                    lemma_dec_value_monotone(tok@, i + 1);
                }
            }
            return None;
        }
        acc = next;
        i = i + 1;
    }
    proof {
        assert(tok@.subrange(0, tok@.len() as int) =~= tok@);
    }
    Some(acc as usize)
}

/// Finds the next occurrence of the character at or after `from`.
fn find_char_chars(v: &Vec<char>, from: usize, c: char) -> (r: Option<usize>)
    ensures
        match r {
            Some(i) => find_char(v@, from as int, c) == Some(i as int) && from <= i < v@.len()
                && v@[i as int] == c,
            None => find_char(v@, from as int, c) is None,
        },
{
    let mut i = from;
    loop
        invariant_except_break
            from <= i,
            find_char(v@, from as int, c) == find_char(v@, i as int, c),
        ensures
            match find_char(v@, from as int, c) {
                Some(p) => from <= p < v@.len() && v@[p] == c && i == p,
                None => i >= v@.len(),
            },
        decreases v@.len() - i,
    {
        if i >= v.len() {
            proof {
                lemma_find_char_bounds(v@, i as int, c);
            }
            break ;
        }
        if v[i] == c {
            break ;
        }
        i = i + 1;
    }
    if i < v.len() {
        Some(i)
    } else {
        None
    }
}

/// Cuts the characters from `from` on into the pieces between `/`s.
fn split_tokens(v: &Vec<char>, from: usize) -> (r: Vec<Vec<char>>)
    requires
        from <= v@.len(),
    ensures
        r@.len() == split_from(v@, from as int).len(),
        forall|i: int| 0 <= i < r@.len() ==> #[trigger] r@[i]@ == split_from(v@, from as int)[i],
{
    let mut out: Vec<Vec<char>> = Vec::new();
    let ghost mut done: Seq<Seq<char>> = Seq::empty();
    let mut pos = from;
    let total = v.len();
    loop
        invariant_except_break
            v@.len() == total,
            from <= pos <= v@.len(),
            out@.len() == done.len(),
            forall|i: int| 0 <= i < out@.len() ==> #[trigger] out@[i]@ == done[i],
            split_from(v@, from as int) =~= done + split_from(v@, pos as int),
        ensures
            out@.len() == split_from(v@, from as int).len(),
            forall|i: int|
                0 <= i < out@.len() ==> #[trigger] out@[i]@ == split_from(v@, from as int)[i],
        decreases v@.len() - pos,
    {
        match find_char_chars(v, pos, '/') {
            None => {
                let piece = sub_chars(v, pos, v.len());
                out.push(piece);
                proof {
                    done = done.push(v@.subrange(pos as int, v@.len() as int));
                    assert(split_from(v@, from as int) =~= done);
                }
                break ;
            },
            Some(i) => {
                let piece = sub_chars(v, pos, i);
                out.push(piece);
                proof {
                    done = done.push(v@.subrange(pos as int, i as int));
                }
                pos = i + 1;
            },
        }
    }
    out
}

/// Scans an object's fields for the first one under the key.
fn obj_scan<'a>(fields: &'a Vec<(String, JsonValue)>, key: &String) -> (r: Option<&'a JsonValue>)
    ensures
        match r {
            Some(v) => obj_get(obj_model(fields@), key@) == Some(v@),
            None => obj_get(obj_model(fields@), key@) is None,
        },
{
    proof {
        lemma_obj_model(fields@);
        assert(obj_model(fields@).subrange(0, obj_model(fields@).len() as int) =~= obj_model(
            fields@,
        ));
    }
    let mut j: usize = 0;
    while j < fields.len()
        invariant
            j <= fields@.len(),
            obj_model(fields@).len() == fields@.len(),
            forall|i: int|
                0 <= i < fields@.len() ==> obj_model(fields@)[i] == (
                    (#[trigger] fields@[i]).0@,
                    jmodel(fields@[i].1),
                ),
            obj_get(obj_model(fields@), key@) == obj_get(
                obj_model(fields@).subrange(j as int, obj_model(fields@).len() as int),
                key@,
            ),
        decreases fields@.len() - j,
    {
        let ghost m = obj_model(fields@);
        if fields[j].0 == *key {
            proof {
                let sub = m.subrange(j as int, m.len() as int);
                assert(sub[0] == m[j as int]);
                assert(obj_get(sub, key@) == Some(m[j as int].1));
            }
            return Some(&fields[j].1);
        }
        proof {
            let sub = m.subrange(j as int, m.len() as int);
            assert(sub[0] == m[j as int]);
            assert(sub.drop_first() =~= m.subrange(j + 1, m.len() as int));
            assert(obj_get(sub, key@) == obj_get(sub.drop_first(), key@));
        }
        j = j + 1;
    }
    proof {
        let m = obj_model(fields@);
        assert(m.subrange(m.len() as int, m.len() as int) =~= Seq::<(Seq<char>, JNode)>::empty());
    }
    None
}

impl JsonValue {
    /// Looks up the value a JSON pointer addresses: `/`-separated reference
    /// tokens, object keys and array indices, with `~1` for `/` and `~0`
    /// for `~`; the empty pointer is the document itself.
    pub fn pointer(&self, path: &str) -> (r: Option<&JsonValue>)
        ensures
            match r {
                Some(v) => pointer_spec(self@, path@) == Some(v@),
                None => pointer_spec(self@, path@) is None,
            },
    {
        let chars = str_to_chars(path);
        if chars.len() == 0 {
            return Some(self);
        }
        if chars[0] != '/' {
            return None;
        }
        let tokens = split_tokens(&chars, 1);
        let ghost toks = split_from(chars@, 1);
        let mut cur: &JsonValue = self;
        let mut ti: usize = 0;
        proof {
            assert(toks.subrange(0, toks.len() as int) =~= toks);
        }
        while ti < tokens.len()
            invariant
                ti <= tokens@.len(),
                tokens@.len() == toks.len(),
                path@.len() > 0,
                path@[0] == '/',
                toks == split_from(path@, 1),
                forall|i: int| 0 <= i < tokens@.len() ==> #[trigger] tokens@[i]@ == toks[i],
                descend(self@, toks) == descend(cur@, toks.subrange(ti as int, toks.len() as int)),
            decreases tokens@.len() - ti,
        {
            let tok = unescape_chars(&tokens[ti]);
            let ghost rest = toks.subrange(ti as int, toks.len() as int);
            proof {
                assert(tokens@[ti as int]@ == toks[ti as int]);
                assert(rest[0] == toks[ti as int]);
                assert(tok@ == unescape_token(rest[0]));
                assert(rest.drop_first() =~= toks.subrange(ti + 1, toks.len() as int));
            }
            match cur {
                JsonValue::Obj(fields) => {
                    let key = chars_to_string(&tok);
                    proof {
                        assert(cur@ == JNode::Obj(obj_model(fields@)));
                    }
                    match obj_scan(fields, &key) {
                        Some(child) => {
                            cur = child;
                        },
                        None => {
                            return None;
                        },
                    }
                },
                JsonValue::Arr(items) => {
                    proof {
                        assert(cur@ == JNode::Arr(arr_model(items@)));
                        lemma_arr_model(items@);
                    }
                    match token_index_chars(&tok) {
                        Some(i) => {
                            if i < items.len() {
                                cur = &items[i];
                            } else {
                                return None;
                            }
                        },
                        None => {
                            return None;
                        },
                    }
                },
                _ => {
                    proof {
                        assert(!(cur@ is Obj) && !(cur@ is Arr));
                        assert(descend(cur@, rest) is None);
                    }
                    return None;
                },
            }
            ti = ti + 1;
        }
        proof {
            assert(toks.subrange(toks.len() as int, toks.len() as int) =~= Seq::<
                Seq<char>,
            >::empty());
        }
        Some(cur)
    }

    /// Looks up a value under a bare key: a plain object field access.
    pub fn get(&self, key: &String) -> (r: Option<&JsonValue>)
        ensures
            match r {
                Some(v) => key_lookup_spec(self@, key@) == Some(v@),
                None => key_lookup_spec(self@, key@) is None,
            },
    {
        match self {
            JsonValue::Obj(fields) => {
                proof {
                    assert(self@ == JNode::Obj(obj_model(fields@)));
                }
                obj_scan(fields, key)
            },
            _ => None,
        }
    }

    /// Whether two documents are equal in type and content.
    pub fn json_eq(&self, other: &JsonValue) -> (r: bool)
        ensures
            r == (self@ == other@),
        decreases *self,
    {
        match (self, other) {
            (JsonValue::Null, JsonValue::Null) => true,
            (JsonValue::Bool(x), JsonValue::Bool(y)) => x == y,
            (JsonValue::Num(x), JsonValue::Num(y)) => *x == *y,
            (JsonValue::Str(x), JsonValue::Str(y)) => *x == *y,
            (JsonValue::Arr(xs), JsonValue::Arr(ys)) => {
                if xs.len() != ys.len() {
                    proof {
                        lemma_arr_model(xs@);
                        lemma_arr_model(ys@);
                    }
                    return false;
                }
                let mut i: usize = 0;
                while i < xs.len()
                    invariant
                        i <= xs@.len(),
                        xs@.len() == ys@.len(),
                        self == JsonValue::Arr(*xs),
                        other == JsonValue::Arr(*ys),
                        forall|j: int| 0 <= j < i ==> jmodel(#[trigger] xs@[j]) == jmodel(ys@[j]),
                    decreases xs@.len() - i,
                {
                    proof {
                        assert(decreases_to!(*self => (*self)->Arr_0));
                        assert(decreases_to!((*self)->Arr_0 => (*self)->Arr_0@));
                        assert(decreases_to!((*self)->Arr_0@ => (*self)->Arr_0@[i as int]));
                        assert(decreases_to!(*self => xs@[i as int]));
                    }
                    if !xs[i].json_eq(&ys[i]) {
                        proof {
                            lemma_arr_model(xs@);
                            lemma_arr_model(ys@);
                            assert(arr_model(xs@)[i as int] != arr_model(ys@)[i as int]);
                        }
                        return false;
                    }
                    i = i + 1;
                }
                proof {
                    lemma_arr_model(xs@);
                    lemma_arr_model(ys@);
                    assert forall|j: int|
                        0 <= j < xs@.len() implies arr_model(xs@)[j] == arr_model(ys@)[j] by {
                        assert(jmodel(xs@[j]) == jmodel(ys@[j]));
                    }
                    assert(arr_model(xs@) =~= arr_model(ys@));
                    assert(self@ == JNode::Arr(arr_model(xs@)));
                    assert(other@ == JNode::Arr(arr_model(ys@)));
                }
                true
            },
            (JsonValue::Obj(xs), JsonValue::Obj(ys)) => {
                if xs.len() != ys.len() {
                    proof {
                        lemma_obj_model(xs@);
                        lemma_obj_model(ys@);
                    }
                    return false;
                }
                let mut i: usize = 0;
                while i < xs.len()
                    invariant
                        i <= xs@.len(),
                        xs@.len() == ys@.len(),
                        self == JsonValue::Obj(*xs),
                        other == JsonValue::Obj(*ys),
                        forall|j: int|
                            0 <= j < i ==> (#[trigger] xs@[j]).0@ == ys@[j].0@ && jmodel(
                                xs@[j].1,
                            ) == jmodel(ys@[j].1),
                    decreases xs@.len() - i,
                {
                    if !(xs[i].0 == ys[i].0) {
                        proof {
                            lemma_obj_model(xs@);
                            lemma_obj_model(ys@);
                            assert(obj_model(xs@)[i as int] != obj_model(ys@)[i as int]);
                        }
                        return false;
                    }
                    proof {
                        assert(decreases_to!(*self => (*self)->Obj_0));
                        assert(decreases_to!((*self)->Obj_0 => (*self)->Obj_0@));
                        assert(decreases_to!((*self)->Obj_0@ => (*self)->Obj_0@[i as int]));
                        assert(decreases_to!((*self)->Obj_0@[i as int] => (*self)->Obj_0@[i as int].1));
                        assert(decreases_to!(*self => xs@[i as int].1));
                    }
                    if !xs[i].1.json_eq(&ys[i].1) {
                        proof {
                            lemma_obj_model(xs@);
                            lemma_obj_model(ys@);
                            assert(obj_model(xs@)[i as int] != obj_model(ys@)[i as int]);
                        }
                        return false;
                    }
                    i = i + 1;
                }
                proof {
                    lemma_obj_model(xs@);
                    lemma_obj_model(ys@);
                    assert forall|j: int|
                        0 <= j < xs@.len() implies obj_model(xs@)[j] == obj_model(ys@)[j] by {
                        assert(xs@[j].0@ == ys@[j].0@);
                        assert(jmodel(xs@[j].1) == jmodel(ys@[j].1));
                    }
                    assert(obj_model(xs@) =~= obj_model(ys@));
                    assert(self@ == JNode::Obj(obj_model(xs@)));
                    assert(other@ == JNode::Obj(obj_model(ys@)));
                }
                true
            },
            _ => {
                proof {
                    assert(self@ != other@);
                }
                false
            },
        }
    }
}

/// The path of a leaf reached through `prefix`: the prefix itself, or `/`
/// for a document whose root is a leaf.
pub open spec fn leaf_path_of(prefix: Seq<char>) -> Seq<char> {
    if prefix.len() == 0 {
        seq!['/']
    } else {
        prefix
    }
}

/// The leaf paths of a document under a path prefix, in field order.
pub open spec fn leaf_paths(n: JNode, prefix: Seq<char>) -> Seq<Seq<char>>
    decreases n, 0int,
{
    match n {
        JNode::Arr(items) => arr_paths(items, prefix, items.len() as int),
        JNode::Obj(fields) => obj_paths(fields, prefix, fields.len() as int),
        _ => seq![leaf_path_of(prefix)],
    }
}

/// The leaf paths of the first `k` elements of an array.
pub open spec fn arr_paths(items: Seq<JNode>, prefix: Seq<char>, k: int) -> Seq<Seq<char>>
    decreases items, k,
{
    if k <= 0 || k > items.len() {
        Seq::empty()
    } else {
        arr_paths(items, prefix, k - 1) + leaf_paths(
            items[k - 1],
            prefix + seq!['/'] + dec_rep((k - 1) as nat),
        )
    }
}

/// The leaf paths of the first `k` fields of an object.
pub open spec fn obj_paths(fields: Seq<(Seq<char>, JNode)>, prefix: Seq<char>, k: int) -> Seq<
    Seq<char>,
>
    decreases fields, k,
{
    if k <= 0 || k > fields.len() {
        Seq::empty()
    } else {
        obj_paths(fields, prefix, k - 1) + leaf_paths(
            fields[k - 1].1,
            prefix + seq!['/'] + fields[k - 1].0,
        )
    }
}

/// Appends the leaf paths of the document under the prefix.
fn flatten_into(v: &JsonValue, prefix: &Vec<char>, out: &mut Vec<String>)
    ensures
        final(out)@.len() == old(out)@.len() + leaf_paths(v@, prefix@).len(),
        forall|i: int| 0 <= i < old(out)@.len() ==> final(out)@[i] == old(out)@[i],
        forall|i: int|
            0 <= i < leaf_paths(v@, prefix@).len() ==> final(out)@[old(out)@.len() + i]@
                == #[trigger] leaf_paths(v@, prefix@)[i],
    decreases *v,
{
    let ghost entry = out@;
    match v {
        JsonValue::Arr(items) => {
            let ghost m = arr_model(items@);
            proof {
                lemma_arr_model(items@);
                assert(v@ == JNode::Arr(m));
            }
            let n = items.len();
            let mut k: usize = 0;
            while k < n
                invariant
                    k <= n,
                    n == items@.len(),
                    v == JsonValue::Arr(*items),
                    m == arr_model(items@),
                    m.len() == items@.len(),
                    forall|i: int| 0 <= i < items@.len() ==> m[i] == jmodel(#[trigger] items@[i]),
                    out@.len() == entry.len() + arr_paths(m, prefix@, k as int).len(),
                    forall|i: int| 0 <= i < entry.len() ==> out@[i] == entry[i],
                    forall|i: int|
                        0 <= i < arr_paths(m, prefix@, k as int).len() ==> out@[entry.len() + i]@
                            == #[trigger] arr_paths(m, prefix@, k as int)[i],
                decreases n - k,
            {
                let mut cp = sub_chars(prefix, 0, prefix.len());
                cp.push('/');
                let mut digits = crate::text::u64_to_chars(k as u64);
                cp.append(&mut digits);
                proof {
                    assert(cp@ =~= prefix@ + seq!['/'] + dec_rep(k as nat));
                    assert(decreases_to!(*v => (*v)->Arr_0));
                    assert(decreases_to!((*v)->Arr_0 => (*v)->Arr_0@));
                    assert(decreases_to!((*v)->Arr_0@ => (*v)->Arr_0@[k as int]));
                    assert(decreases_to!(*v => items@[k as int]));
                }
                let ghost before = out@;
                flatten_into(&items[k], &cp, out);
                proof {
                    let added = leaf_paths(m[k as int], prefix@ + seq!['/'] + dec_rep(k as nat));
                    assert(leaf_paths(items@[k as int]@, cp@) == added);
                    assert(arr_paths(m, prefix@, k + 1) == arr_paths(m, prefix@, k as int)
                        + added);
                    let a1 = arr_paths(m, prefix@, k + 1);
                    assert forall|i: int| 0 <= i < a1.len() implies out@[entry.len() + i]@ == (
                    #[trigger] a1[i]) by {
                        if i < arr_paths(m, prefix@, k as int).len() {
                            assert(out@[entry.len() + i] == before[entry.len() + i]);
                        } else {
                            let j = i - arr_paths(m, prefix@, k as int).len();
                            assert(out@[before.len() + j]@ == added[j]);
                        }
                    }
                }
                k = k + 1;
            }
        },
        JsonValue::Obj(fields) => {
            let ghost m = obj_model(fields@);
            proof {
                lemma_obj_model(fields@);
                assert(v@ == JNode::Obj(m));
            }
            let n = fields.len();
            let mut k: usize = 0;
            while k < n
                invariant
                    k <= n,
                    n == fields@.len(),
                    v == JsonValue::Obj(*fields),
                    m == obj_model(fields@),
                    m.len() == fields@.len(),
                    forall|i: int|
                        0 <= i < fields@.len() ==> m[i] == (
                            (#[trigger] fields@[i]).0@,
                            jmodel(fields@[i].1),
                        ),
                    out@.len() == entry.len() + obj_paths(m, prefix@, k as int).len(),
                    forall|i: int| 0 <= i < entry.len() ==> out@[i] == entry[i],
                    forall|i: int|
                        0 <= i < obj_paths(m, prefix@, k as int).len() ==> out@[entry.len() + i]@
                            == #[trigger] obj_paths(m, prefix@, k as int)[i],
                decreases n - k,
            {
                let mut cp = sub_chars(prefix, 0, prefix.len());
                cp.push('/');
                let mut keychars = str_to_chars(fields[k].0.as_str());
                cp.append(&mut keychars);
                proof {
                    assert(cp@ =~= prefix@ + seq!['/'] + m[k as int].0);
                    assert(decreases_to!(*v => (*v)->Obj_0));
                    assert(decreases_to!((*v)->Obj_0 => (*v)->Obj_0@));
                    assert(decreases_to!((*v)->Obj_0@ => (*v)->Obj_0@[k as int]));
                    assert(decreases_to!((*v)->Obj_0@[k as int] => (*v)->Obj_0@[k as int].1));
                    assert(decreases_to!(*v => fields@[k as int].1));
                }
                let ghost before = out@;
                flatten_into(&fields[k].1, &cp, out);
                proof {
                    let added = leaf_paths(m[k as int].1, prefix@ + seq!['/'] + m[k as int].0);
                    assert(leaf_paths(fields@[k as int].1@, cp@) == added);
                    assert(obj_paths(m, prefix@, k + 1) == obj_paths(m, prefix@, k as int)
                        + added);
                    let a1 = obj_paths(m, prefix@, k + 1);
                    assert forall|i: int| 0 <= i < a1.len() implies out@[entry.len() + i]@ == (
                    #[trigger] a1[i]) by {
                        if i < obj_paths(m, prefix@, k as int).len() {
                            assert(out@[entry.len() + i] == before[entry.len() + i]);
                        } else {
                            let j = i - obj_paths(m, prefix@, k as int).len();
                            assert(out@[before.len() + j]@ == added[j]);
                        }
                    }
                }
                k = k + 1;
            }
        },
        JsonValue::Null | JsonValue::Bool(_) | JsonValue::Num(_) | JsonValue::Str(_) => {
            let path = if prefix.len() == 0 {
                String::from_str("/")
            } else {
                chars_to_string(prefix)
            };
            proof {
                reveal_strlit("/");
                if prefix@.len() == 0 {
                    assert(path@ =~= seq!['/']);
                }
                assert(!(v@ is Arr) && !(v@ is Obj));
                assert(path@ == leaf_path_of(prefix@));
            }
            out.push(path);
        },
    }
}

/// Lists the pointer path of every leaf of the document: objects descend
/// through their keys, arrays through their indices, and a root that is
/// itself a leaf yields the single path `/`.
pub fn flatten_json(root: &JsonValue) -> (r: Vec<String>)
    ensures
        r@.len() == leaf_paths(root@, Seq::<char>::empty()).len(),
        forall|i: int|
            0 <= i < r@.len() ==> #[trigger] r@[i]@ == leaf_paths(root@, Seq::<char>::empty())[i],
{
    let mut out: Vec<String> = Vec::new();
    let prefix: Vec<char> = Vec::new();
    flatten_into(root, &prefix, &mut out);
    out
}

/// A hexadecimal digit character, lower case.
pub open spec fn hex_digit(d: int) -> char {
    if d < 10 {
        ((d + 48) as u8) as char
    } else {
        ((d + 87) as u8) as char
    }
}

/// How one character stands inside a JSON string: quotes and backslashes
/// get a backslash escape, the named control characters their short form,
/// any other control character a `\u00..` escape, and everything else
/// stands as itself.
pub open spec fn esc_char(c: char) -> Seq<char> {
    if c == '"' {
        seq!['\\', '"']
    } else if c == '\\' {
        seq!['\\', '\\']
    } else if c == '\u{8}' {
        seq!['\\', 'b']
    } else if c == '\t' {
        seq!['\\', 't']
    } else if c == '\n' {
        seq!['\\', 'n']
    } else if c == '\u{c}' {
        seq!['\\', 'f']
    } else if c == '\r' {
        seq!['\\', 'r']
    } else if (c as int) < 32 {
        seq!['\\', 'u', '0', '0', hex_digit((c as int) / 16), hex_digit((c as int) % 16)]
    } else {
        seq![c]
    }
}

/// A string's characters, escaped for JSON.
pub open spec fn escape_text(s: Seq<char>) -> Seq<char>
    decreases s.len(),
{
    if s.len() == 0 {
        Seq::empty()
    } else {
        escape_text(s.drop_last()) + esc_char(s.last())
    }
}

/// A string as it stands in a JSON document: quoted and escaped.
pub open spec fn quote_text(s: Seq<char>) -> Seq<char> {
    seq!['"'] + escape_text(s) + seq!['"']
}

/// The compact rendering of a document.
pub open spec fn json_text(n: JNode) -> Seq<char>
    decreases n, 0int,
{
    match n {
        JNode::Null => "null"@,
        JNode::Bool(b) => if b {
            "true"@
        } else {
            "false"@
        },
        JNode::Num(s) => s,
        JNode::Str(s) => quote_text(s),
        JNode::Arr(items) => seq!['['] + arr_text(items, items.len() as int) + seq![']'],
        JNode::Obj(fields) => seq!['{'] + obj_text(fields, fields.len() as int) + seq!['}'],
    }
}

/// The rendering of the first `k` elements of an array, comma-separated.
pub open spec fn arr_text(items: Seq<JNode>, k: int) -> Seq<char>
    decreases items, k,
{
    if k <= 0 || k > items.len() {
        Seq::empty()
    } else {
        arr_text(items, k - 1) + (if k > 1 {
            seq![',']
        } else {
            Seq::empty()
        }) + json_text(items[k - 1])
    }
}

/// The rendering of the first `k` fields of an object, comma-separated.
pub open spec fn obj_text(fields: Seq<(Seq<char>, JNode)>, k: int) -> Seq<char>
    decreases fields, k,
{
    if k <= 0 || k > fields.len() {
        Seq::empty()
    } else {
        obj_text(fields, k - 1) + (if k > 1 {
            seq![',']
        } else {
            Seq::empty()
        }) + quote_text(fields[k - 1].0) + seq![':'] + json_text(fields[k - 1].1)
    }
}

/// Appends the escape of one character.
fn push_escaped(c: char, out: &mut Vec<char>)
    ensures
        final(out)@ == old(out)@ + esc_char(c),
{
    let ghost entry = out@;
    if c == '"' {
        out.push('\\');
        out.push('"');
    } else if c == '\\' {
        out.push('\\');
        out.push('\\');
    } else if c == '\u{8}' {
        out.push('\\');
        out.push('b');
    } else if c == '\t' {
        out.push('\\');
        out.push('t');
    } else if c == '\n' {
        out.push('\\');
        out.push('n');
    } else if c == '\u{c}' {
        out.push('\\');
        out.push('f');
    } else if c == '\r' {
        out.push('\\');
        out.push('r');
    } else if (c as u32) < 32 {
        let b = (c as u32) as u8;
        let hi = b / 16;
        let lo = b % 16;
        let hic = if hi < 10 {
            (48 + hi) as char
        } else {
            (87 + hi) as char
        };
        let loc = if lo < 10 {
            (48 + lo) as char
        } else {
            (87 + lo) as char
        };
        out.push('\\');
        out.push('u');
        out.push('0');
        out.push('0');
        out.push(hic);
        out.push(loc);
        proof {
            assert(hic == hex_digit((c as int) / 16));
            assert(loc == hex_digit((c as int) % 16));
        }
    } else {
        out.push(c);
    }
    proof {
        assert(out@ =~= entry + esc_char(c));
    }
}

/// Appends a quoted, escaped JSON string.
fn write_quoted(s: &String, out: &mut Vec<char>)
    ensures
        final(out)@ == old(out)@ + quote_text(s@),
{
    let ghost entry = out@;
    out.push('"');
    let chars = str_to_chars(s.as_str());
    let mut i: usize = 0;
    while i < chars.len()
        invariant
            i <= chars@.len(),
            chars@ == s@,
            out@ =~= entry + seq!['"'] + escape_text(s@.subrange(0, i as int)),
        decreases chars@.len() - i,
    {
        push_escaped(chars[i], out);
        proof {
            let t = s@.subrange(0, i + 1);
            assert(t.drop_last() =~= s@.subrange(0, i as int));
            assert(t.last() == s@[i as int]);
            assert(out@ =~= entry + seq!['"'] + escape_text(t));
        }
        i = i + 1;
    }
    out.push('"');
    proof {
        assert(s@.subrange(0, s@.len() as int) =~= s@);
        assert(out@ =~= entry + quote_text(s@));
    }
}

/// Appends the compact rendering of the document.
fn write_json(v: &JsonValue, out: &mut Vec<char>)
    ensures
        final(out)@ == old(out)@ + json_text(v@),
    decreases *v,
{
    let ghost entry = out@;
    match v {
        JsonValue::Null => {
            let mut word = str_to_chars("null");
            out.append(&mut word);
        },
        JsonValue::Bool(b) => {
            let mut word = if *b {
                str_to_chars("true")
            } else {
                str_to_chars("false")
            };
            out.append(&mut word);
        },
        JsonValue::Num(text) => {
            let mut word = str_to_chars(text.as_str());
            out.append(&mut word);
        },
        JsonValue::Str(text) => {
            write_quoted(text, out);
        },
        JsonValue::Arr(items) => {
            let ghost m = arr_model(items@);
            proof {
                lemma_arr_model(items@);
                assert(v@ == JNode::Arr(m));
            }
            out.push('[');
            let n = items.len();
            let mut k: usize = 0;
            while k < n
                invariant
                    k <= n,
                    n == items@.len(),
                    v == JsonValue::Arr(*items),
                    m == arr_model(items@),
                    m.len() == items@.len(),
                    forall|i: int| 0 <= i < items@.len() ==> m[i] == jmodel(#[trigger] items@[i]),
                    out@ =~= entry + seq!['['] + arr_text(m, k as int),
                decreases n - k,
            {
                if k > 0 {
                    out.push(',');
                }
                proof {
                    assert(decreases_to!(*v => (*v)->Arr_0));
                    assert(decreases_to!((*v)->Arr_0 => (*v)->Arr_0@));
                    assert(decreases_to!((*v)->Arr_0@ => (*v)->Arr_0@[k as int]));
                    assert(decreases_to!(*v => items@[k as int]));
                }
                write_json(&items[k], out);
                proof {
                    assert(out@ =~= entry + seq!['['] + arr_text(m, k + 1));
                }
                k = k + 1;
            }
            out.push(']');
            proof {
                assert(out@ =~= entry + json_text(v@));
            }
        },
        JsonValue::Obj(fields) => {
            let ghost m = obj_model(fields@);
            proof {
                lemma_obj_model(fields@);
                assert(v@ == JNode::Obj(m));
            }
            out.push('{');
            let n = fields.len();
            let mut k: usize = 0;
            while k < n
                invariant
                    k <= n,
                    n == fields@.len(),
                    v == JsonValue::Obj(*fields),
                    m == obj_model(fields@),
                    m.len() == fields@.len(),
                    forall|i: int|
                        0 <= i < fields@.len() ==> m[i] == (
                            (#[trigger] fields@[i]).0@,
                            jmodel(fields@[i].1),
                        ),
                    out@ =~= entry + seq!['{'] + obj_text(m, k as int),
                decreases n - k,
            {
                if k > 0 {
                    out.push(',');
                }
                write_quoted(&fields[k].0, out);
                out.push(':');
                proof {
                    assert(decreases_to!(*v => (*v)->Obj_0));
                    assert(decreases_to!((*v)->Obj_0 => (*v)->Obj_0@));
                    assert(decreases_to!((*v)->Obj_0@ => (*v)->Obj_0@[k as int]));
                    assert(decreases_to!((*v)->Obj_0@[k as int] => (*v)->Obj_0@[k as int].1));
                    assert(decreases_to!(*v => fields@[k as int].1));
                }
                write_json(&fields[k].1, out);
                proof {
                    assert(out@ =~= entry + seq!['{'] + obj_text(m, k + 1));
                }
                k = k + 1;
            }
            out.push('}');
            proof {
                assert(out@ =~= entry + json_text(v@));
            }
        },
    }
}

impl JsonValue {
    /// The compact rendering of the document, as the transport and the
    /// failure reports show it.
    pub fn to_text(&self) -> (r: String)
        ensures
            r@ == json_text(self@),
    {
        let mut out: Vec<char> = Vec::new();
        write_json(self, &mut out);
        chars_to_string(&out)
    }

    /// The captured form of a response value: a string's own characters,
    /// any other value's compact rendering.
    pub fn capture_text(&self) -> (r: String)
        ensures
            r@ == (match self@ {
                JNode::Str(s) => s,
                _ => json_text(self@),
            }),
    {
        match self {
            JsonValue::Str(text) => {
                let copy = text.clone();
                copy
            },
            _ => self.to_text(),
        }
    }
}

} // verus!
