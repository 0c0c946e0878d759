use vstd::prelude::*;
use vstd::string::StrSliceExecFns;
use vstd::string::StringExecFns;
use crate::json::{obj_lookup, JsonValue};
use crate::text::{dec_digits, usize_dec};

verus! {

/// The expected shape of a decoded JSON document: the target description
/// that path-aware decoding checks a value against.
pub enum Shape {
    /// Accepts exactly JSON null.
    Null,
    /// Accepts a boolean.
    Boolean,
    /// Accepts a number.
    Number,
    /// Accepts a string.
    Text,
    /// Accepts an array whose every element matches the inner shape.
    Array(Box<Shape>),
    /// Accepts an object that binds every listed field to a matching value;
    /// fields not listed are ignored.
    Object(Fields),
}

/// The field list of an object shape, in checking order.
pub enum Fields {
    Nil,
    Field(String, Box<Shape>, Box<Fields>),
}

/// The path segment for the element at index `i` of an array: `[i]`.
pub open spec fn index_segment(i: int) -> Seq<char> {
    seq!['['] + dec_digits(i as nat) + seq![']']
}

/// The first mismatch between `v` and `s`, as a path of segments, or
/// `None` when `v` matches `s`. Fields are checked in declared order,
/// array elements in index order, depth first.
pub open spec fn mismatch(v: JsonValue, s: Shape) -> Option<Seq<Seq<char>>>
    decreases s, 1int, 0int,
{
    match s {
        Shape::Null => if v is Null {
            None
        } else {
            Some(Seq::<Seq<char>>::empty())
        },
        Shape::Boolean => if v is Bool {
            None
        } else {
            Some(Seq::<Seq<char>>::empty())
        },
        Shape::Number => if v is Num {
            None
        } else {
            Some(Seq::<Seq<char>>::empty())
        },
        Shape::Text => if v is Str {
            None
        } else {
            Some(Seq::<Seq<char>>::empty())
        },
        Shape::Array(inner) => match v {
            JsonValue::Arr(elems) => arr_mismatch(elems@, *inner, 0),
            _ => Some(Seq::<Seq<char>>::empty()),
        },
        Shape::Object(fields) => match v {
            JsonValue::Obj(vfields) => fields_mismatch(vfields@, fields),
            _ => Some(Seq::<Seq<char>>::empty()),
        },
    }
}

/// The first mismatch among `elems[i..]` against `inner`, its path
/// prefixed with the element's index segment.
pub open spec fn arr_mismatch(elems: Seq<JsonValue>, inner: Shape, i: int) -> Option<
    Seq<Seq<char>>,
>
    decreases inner, 2int, elems.len() - i,
{
    if i < 0 || i >= elems.len() {
        None
    } else {
        match mismatch(elems[i], inner) {
            Some(p) => Some(seq![index_segment(i)] + p),
            None => arr_mismatch(elems, inner, i + 1),
        }
    }
}

/// The first mismatch of an object's bindings against a field list: a
/// listed field that is absent mismatches with path `[name]`; one bound to
/// an ill-shaped value contributes `name` before the inner path.
pub open spec fn fields_mismatch(vfields: Seq<(String, JsonValue)>, fs: Fields) -> Option<
    Seq<Seq<char>>,
>
    decreases fs, 0int, 0int,
{
    match fs {
        Fields::Nil => None,
        Fields::Field(name, shape, rest) => match obj_lookup(vfields, name@) {
            None => Some(seq![name@]),
            Some(x) => match mismatch(x, *shape) {
                Some(p) => Some(seq![name@] + p),
                None => fields_mismatch(vfields, *rest),
            },
        },
    }
}

/// `v` fits `s` exactly when no mismatch path exists.
pub open spec fn matches_shape(v: JsonValue, s: Shape) -> bool {
    mismatch(v, s) is None
}

/// How one non-leading segment attaches to a rendered path: an index
/// segment directly, a field name after a '.'.
pub open spec fn seg_rendered(seg: Seq<char>) -> Seq<char> {
    if seg.len() > 0 && seg.first() == '[' {
        seg
    } else {
        seq!['.'] + seg
    }
}

pub open spec fn rendered_tail(path: Seq<Seq<char>>) -> Seq<char>
    decreases path.len(),
{
    if path.len() == 0 {
        Seq::empty()
    } else {
        seg_rendered(path.first()) + rendered_tail(path.drop_first())
    }
}

/// Renders a mismatch path for diagnostics: the first segment plain, each
/// later one attached by `seg_rendered`; the empty path (a mismatch at the
/// document root) renders as ".".
pub open spec fn rendered_path(path: Seq<Seq<char>>) -> Seq<char> {
    if path.len() == 0 {
        seq!['.']
    } else {
        path.first() + rendered_tail(path.drop_first())
    }
}

proof fn lemma_rendered_tail_snoc(p: Seq<Seq<char>>, x: Seq<char>)
    ensures
        rendered_tail(p.push(x)) == rendered_tail(p) + seg_rendered(x),
    decreases p.len(),
{
    if p.len() == 0 {
        assert(p.push(x).first() == x);
        assert(p.push(x).drop_first() =~= Seq::<Seq<char>>::empty());
        assert(p.push(x).len() == 1);
        assert(rendered_tail(p.push(x)) == seg_rendered(x) + rendered_tail(
            p.push(x).drop_first(),
        ));
        assert(rendered_tail(p.push(x).drop_first()) == Seq::<char>::empty());
        assert(rendered_tail(p) == Seq::<char>::empty());
        assert(seg_rendered(x) + Seq::<char>::empty() =~= Seq::<char>::empty() + seg_rendered(x));
        assert(rendered_tail(p.push(x)) =~= rendered_tail(p) + seg_rendered(x));
    } else {
        assert(p.push(x).first() == p.first());
        assert(p.push(x).drop_first() =~= p.drop_first().push(x));
        lemma_rendered_tail_snoc(p.drop_first(), x);
        assert(rendered_tail(p.push(x)) == seg_rendered(p.first()) + rendered_tail(
            p.drop_first().push(x),
        ));
        assert(seg_rendered(p.first()) + (rendered_tail(p.drop_first()) + seg_rendered(x)) =~= (
        seg_rendered(p.first()) + rendered_tail(p.drop_first())) + seg_rendered(x));
        assert(rendered_tail(p.push(x)) =~= rendered_tail(p) + seg_rendered(x));
    }
}

fn root_mismatch() -> (r: Vec<String>)
    ensures
        r.deep_view() == Seq::<Seq<char>>::empty(),
{
    let r: Vec<String> = Vec::new();
    proof {
        assert(r.deep_view() =~= Seq::<Seq<char>>::empty());
    }
    r
}

fn prepend_segment(seg: String, rest: Vec<String>) -> (r: Vec<String>)
    ensures
        r.deep_view() == seq![seg@] + rest.deep_view(),
{
    let mut r = rest;
    r.insert(0, seg);
    proof {
        let lhs = r.deep_view();
        let rhs = seq![seg@] + rest.deep_view();
        assert forall|i: int| 0 <= i < lhs.len() implies lhs[i] == rhs[i] by {
            if i == 0 {
                assert(r@[0] == seg);
            } else {
                assert(r@[i] == rest@[i - 1]);
            }
        }
        assert(lhs =~= rhs);
    }
    r
}

fn make_index_segment(i: usize) -> (r: String)
    ensures
        r@ == index_segment(i as int),
{
    let mut r = String::from_str("[");
    r.append(usize_dec(i).as_str());
    r.append("]");
    proof {
        reveal_strlit("[");
        reveal_strlit("]");
        assert(r@ =~= index_segment(i as int));
    }
    r
}

/// First binding of `name` among an object's fields, if any.
fn lookup_field<'a>(fields: &'a Vec<(String, JsonValue)>, name: &String) -> (r: Option<
    &'a JsonValue,
>)
    ensures
        match r {
            Some(x) => obj_lookup(fields@, name@) == Some(*x),
            None => obj_lookup(fields@, name@) is None,
        },
{
    let mut i: usize = 0;
    proof {
        assert(fields@.skip(0) =~= fields@);
    }
    while i < fields.len()
        invariant
            0 <= i <= fields.len(),
            obj_lookup(fields@, name@) == obj_lookup(fields@.skip(i as int), name@),
        decreases fields.len() - i,
    {
        proof {
            assert(fields@.skip(i as int).first() == fields@[i as int]);
            assert(fields@.skip(i as int).drop_first() =~= fields@.skip(i as int + 1));
        }
        if fields[i].0 == *name {
            return Some(&fields[i].1);
        }
        i = i + 1;
    }
    None
}

/// Checks `v` against the expected shape `s`: `Ok` exactly when `v`
/// matches, else the path of the first mismatch.
pub fn check_shape(v: &JsonValue, s: &Shape) -> (r: Result<(), Vec<String>>)
    ensures
        r is Ok <==> matches_shape(*v, *s),
        r matches Err(p) ==> mismatch(*v, *s) == Some(p.deep_view()),
    decreases *s, 1int, 0int,
{
    match s {
        Shape::Null => if matches!(v, JsonValue::Null) {
            Ok(())
        } else {
            Err(root_mismatch())
        },
        Shape::Boolean => if matches!(v, JsonValue::Bool(_)) {
            Ok(())
        } else {
            Err(root_mismatch())
        },
        Shape::Number => if matches!(v, JsonValue::Num(_)) {
            Ok(())
        } else {
            Err(root_mismatch())
        },
        Shape::Text => if matches!(v, JsonValue::Str(_)) {
            Ok(())
        } else {
            Err(root_mismatch())
        },
        Shape::Array(inner) => match v {
            JsonValue::Arr(elems) => {
                let mut i: usize = 0;
                while i < elems.len()
                    invariant
                        0 <= i <= elems.len(),
                        mismatch(*v, *s) == arr_mismatch(elems@, **inner, i as int),
                        *v == JsonValue::Arr(*elems),
                        *s == Shape::Array(*inner),
                    decreases elems.len() - i,
                {
                    match check_shape(&elems[i], &**inner) {
                        Ok(()) => {
                            i = i + 1;
                        },
                        Err(p) => {
                            let seg = make_index_segment(i);
                            let path = prepend_segment(seg, p);
                            return Err(path);
                        },
                    }
                }
                Ok(())
            },
            _ => Err(root_mismatch()),
        },
        Shape::Object(fields) => match v {
            JsonValue::Obj(vfields) => check_fields_against(vfields, fields),
            _ => Err(root_mismatch()),
        },
    }
}

/// Checks an object's bindings against a field list, in list order.
fn check_fields_against(vfields: &Vec<(String, JsonValue)>, fs: &Fields) -> (r: Result<
    (),
    Vec<String>,
>)
    ensures
        r is Ok <==> fields_mismatch(vfields@, *fs) is None,
        r matches Err(p) ==> fields_mismatch(vfields@, *fs) == Some(p.deep_view()),
    decreases *fs, 0int, 0int,
{
    match fs {
        Fields::Nil => Ok(()),
        Fields::Field(name, shape, rest) => match lookup_field(vfields, name) {
            None => {
                let mut path: Vec<String> = Vec::new();
                path.push(name.clone());
                proof {
                    assert(path.deep_view() =~= seq![name@]);
                }
                Err(path)
            },
            Some(x) => match check_shape(x, &**shape) {
                Err(p) => Err(prepend_segment(name.clone(), p)),
                Ok(()) => check_fields_against(vfields, &**rest),
            },
        },
    }
}

/// Renders a mismatch path as one diagnostic string.
pub fn render_path(path: &Vec<String>) -> (r: String)
    ensures
        r@ == rendered_path(path.deep_view()),
{
    if path.len() == 0 {
        let r = String::from_str(".");
        proof {
            reveal_strlit(".");
            assert(r@ =~= rendered_path(path.deep_view()));
        }
        return r;
    }
    let mut r = path[0].clone();
    let mut i: usize = 1;
    proof {
        assert(path.deep_view().take(1).drop_first() =~= Seq::<Seq<char>>::empty());
        assert(path.deep_view().take(1).first() == path.deep_view()[0]);
        assert(r@ + rendered_tail(path.deep_view().take(1).drop_first()) =~= r@);
        assert(r@ == rendered_path(path.deep_view().take(1)));
    }
    while i < path.len()
        invariant
            1 <= i <= path.len(),
            path.len() == path.deep_view().len(),
            r@ == rendered_path(path.deep_view().take(i as int)),
        decreases path.len() - i,
    {
        let ghost pre = path.deep_view().take(i as int);
        let ghost cur = path.deep_view()[i as int];
        let seg = &path[i];
        let seg_len = seg.as_str().unicode_len();
        if seg_len > 0 && seg.as_str().get_char(0) == '[' {
            r.append(seg.as_str());
            proof {
                assert(r@ == rendered_path(pre) + seg_rendered(cur));
            }
        } else {
            r.append(".");
            r.append(seg.as_str());
            proof {
                reveal_strlit(".");
                assert("."@ =~= seq!['.']);
                assert(r@ =~= rendered_path(pre) + seg_rendered(cur));
            }
        }
        proof {
            lemma_rendered_tail_snoc(pre.drop_first(), cur);
            assert(path.deep_view().take(i as int + 1).drop_first() =~= pre.drop_first().push(
                cur,
            ));
            assert(path.deep_view().take(i as int + 1).first() == pre.first());
            assert(rendered_path(path.deep_view().take(i as int + 1)) =~= rendered_path(pre)
                + seg_rendered(cur));
        }
        i = i + 1;
    }
    proof {
        assert(path.deep_view().take(path.len() as int) =~= path.deep_view());
    }
    r
}

} // verus!
