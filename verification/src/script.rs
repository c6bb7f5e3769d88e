//! The script analyzer: walks the embedded script's structured form (a
//! JSON-like expression/statement tree), finds top-level variable
//! declarations, assigns each an ascending power-of-two mask, and records
//! the text insertions that wrap initializers in the reactive-cell
//! constructor and suffix every bare reference with the value accessor.

use crate::info::{
    AddStringToPosition, AddStringToPositionV, CompileError, CompileErrorV,
    VariableNameAndAssignedNumber, VariableNameAndAssignedNumberV,
};
use crate::sorting::{
    lemma_insert_sorted_at, lemma_insertion_sort_all, lemma_insertion_sort_sorted,
    spec_insert_sorted, spec_insertion_sort, spec_sorted_by,
};
use crate::strutil::{contains_string, spec_dec, str_eq, u32_to_string};
use vstd::prelude::*;
use vstd::string::StrSliceExecFns;
use vstd::string::StringExecFns;

verus! {

broadcast use {vstd::std_specs::vec::group_vec_axioms, vstd::seq::group_seq_axioms};

/// The structured form of the embedded script: a JSON-like tree with
/// integer numbers, as produced by the parsing collaborator.
pub enum ScriptValue {
    Null,
    Bool(bool),
    Num(u64),
    Str(String),
    Arr(Vec<ScriptValue>),
    Obj(Vec<(String, ScriptValue)>),
}

/// The ghost form of a script value.
#[verifier::ext_equal]
pub enum ScriptValueV {
    Null,
    Bool(bool),
    Num(u64),
    Str(Seq<char>),
    Arr(Seq<ScriptValueV>),
    Obj(Seq<(Seq<char>, ScriptValueV)>),
}

/// The ghost form of a script value.
pub open spec fn sval_view(v: ScriptValue) -> ScriptValueV
    decreases v,
{
    match v {
        ScriptValue::Null => ScriptValueV::Null,
        ScriptValue::Bool(b) => ScriptValueV::Bool(b),
        ScriptValue::Num(n) => ScriptValueV::Num(n),
        ScriptValue::Str(s) => ScriptValueV::Str(s@),
        ScriptValue::Arr(a) => ScriptValueV::Arr(svals_view(a@)),
        ScriptValue::Obj(o) => ScriptValueV::Obj(sobj_view(o@)),
    }
}

/// The ghost form of a list of script values.
pub open spec fn svals_view(s: Seq<ScriptValue>) -> Seq<ScriptValueV>
    decreases s,
{
    if s.len() == 0 {
        Seq::empty()
    } else {
        svals_view(s.drop_last()).push(sval_view(s.last()))
    }
}

/// The ghost form of an object's entry list.
pub open spec fn sobj_view(s: Seq<(String, ScriptValue)>) -> Seq<(Seq<char>, ScriptValueV)>
    decreases s,
{
    if s.len() == 0 {
        Seq::empty()
    } else {
        sobj_view(s.drop_last()).push((s.last().0@, sval_view(s.last().1)))
    }
}

/// A value list's ghost form is the pointwise ghost form of its values.
pub proof fn lemma_svals_view(s: Seq<ScriptValue>)
    ensures
        svals_view(s).len() == s.len(),
        forall|i: int| 0 <= i < s.len() ==> #[trigger] svals_view(s)[i] == sval_view(s[i]),
    decreases s.len(),
{
    if s.len() > 0 {
        lemma_svals_view(s.drop_last());
        assert forall|i: int| 0 <= i < s.len() implies #[trigger] svals_view(s)[i] == sval_view(
            s[i],
        ) by {
            if i < s.len() - 1 {
                assert(svals_view(s)[i] == svals_view(s.drop_last())[i]);
                assert(s.drop_last()[i] == s[i]);
            }
        }
    }
}

/// An entry list's ghost form is the pointwise ghost form of its entries.
pub proof fn lemma_sobj_view(s: Seq<(String, ScriptValue)>)
    ensures
        sobj_view(s).len() == s.len(),
        forall|i: int| 0 <= i < s.len() ==> #[trigger] sobj_view(s)[i] == (
            s[i].0@,
            sval_view(s[i].1),
        ),
    decreases s.len(),
{
    if s.len() > 0 {
        lemma_sobj_view(s.drop_last());
        assert forall|i: int| 0 <= i < s.len() implies #[trigger] sobj_view(s)[i] == (
            s[i].0@,
            sval_view(s[i].1),
        ) by {
            if i < s.len() - 1 {
                assert(sobj_view(s)[i] == sobj_view(s.drop_last())[i]);
                assert(s.drop_last()[i] == s[i]);
            }
        }
    }
}

impl View for ScriptValue {
    type V = ScriptValueV;

    open spec fn view(&self) -> ScriptValueV {
        sval_view(*self)
    }
}

/// The first position of the entry with the given key, or -1.
pub open spec fn spec_obj_index(obj: Seq<(Seq<char>, ScriptValueV)>, key: Seq<char>) -> int
    decreases obj.len(),
{
    if obj.len() == 0 {
        -1
    } else if obj[0].0 == key {
        0
    } else {
        let r = spec_obj_index(obj.drop_first(), key);
        if r < 0 {
            -1
        } else {
            r + 1
        }
    }
}

/// The value of the entry with the given key, if any.
pub open spec fn spec_obj_get(obj: Seq<(Seq<char>, ScriptValueV)>, key: Seq<char>) -> Option<
    ScriptValueV,
> {
    let i = spec_obj_index(obj, key);
    if i < 0 {
        None
    } else {
        Some(obj[i].1)
    }
}

pub proof fn lemma_obj_index_bounds(obj: Seq<(Seq<char>, ScriptValueV)>, key: Seq<char>)
    ensures
        spec_obj_index(obj, key) == -1 || (0 <= spec_obj_index(obj, key) < obj.len()
            && obj[spec_obj_index(obj, key)].0 == key),
        spec_obj_index(obj, key) == -1 ==> forall|k: int|
            0 <= k < obj.len() ==> (#[trigger] obj[k]).0 != key,
        spec_obj_index(obj, key) >= 0 ==> forall|k: int|
            0 <= k < spec_obj_index(obj, key) ==> (#[trigger] obj[k]).0 != key,
    decreases obj.len(),
{
    if obj.len() > 0 && obj[0].0 != key {
        lemma_obj_index_bounds(obj.drop_first(), key);
        assert forall|k: int| 1 <= k < obj.len() implies obj.drop_first()[k - 1] == (
        #[trigger] obj[k]) by {}
    }
}

/// Looks up the entry with the given key.
#[verifier::loop_isolation(false)]
pub fn obj_get<'a>(obj: &'a Vec<(String, ScriptValue)>, key: &str) -> (r: Option<&'a ScriptValue>)
    ensures
        match r {
            Some(v) => spec_obj_get(sobj_view(obj@), key@) == Some(sval_view(*v)),
            None => spec_obj_get(sobj_view(obj@), key@) == Option::<ScriptValueV>::None,
        },
{
    let ghost ov = sobj_view(obj@);
    proof {
        lemma_sobj_view(obj@);
    }
    let mut i: usize = 0;
    while i < obj.len() && !str_eq(obj[i].0.as_str(), key)
        invariant
            0 <= i <= obj@.len(),
            forall|k: int| 0 <= k < i ==> (#[trigger] ov[k]).0 != key@,
        decreases obj@.len() - i,
    {
        proof {
            assert(ov[i as int] == (obj@[i as int].0@, sval_view(obj@[i as int].1)));
        }
        i = i + 1;
    }
    proof {
        lemma_obj_index_bounds(ov, key@);
    }
    if i < obj.len() {
        proof {
            assert(ov[i as int].0 == key@);
            if spec_obj_index(ov, key@) != i as int {
                if spec_obj_index(ov, key@) == -1 {
                    assert(ov[i as int].0 != key@);
                } else if spec_obj_index(ov, key@) > i as int {
                    assert(ov[i as int].0 != key@);
                } else {
                    assert(ov[spec_obj_index(ov, key@)].0 != key@);
                }
            }
            assert(ov[i as int].1 == sval_view(obj@[i as int].1));
        }
        Some(&obj[i].1)
    } else {
        proof {
            if spec_obj_index(ov, key@) >= 0 {
                assert(ov[spec_obj_index(ov, key@)].0 != key@);
            }
        }
        None
    }
}

/// Whether an object node is an identifier reference that must be suffixed
/// with the value accessor: its type is `Identifier`, it stands under a
/// parent that is not a variable declarator, and its value names one of the
/// declared variables.
pub open spec fn spec_identifier_insertion(
    obj: Seq<(Seq<char>, ScriptValueV)>,
    vars: Seq<Seq<char>>,
    parent: Option<Seq<(Seq<char>, ScriptValueV)>>,
) -> Seq<AddStringToPositionV> {
    match parent {
        None => Seq::empty(),
        Some(p) => if (match spec_obj_get(p, "type"@) {
            Some(ScriptValueV::Str(t)) => t == "VariableDeclarator"@,
            _ => false,
        }) {
            Seq::empty()
        } else {
            match spec_obj_get(obj, "value"@) {
                Some(ScriptValueV::Str(name)) => if vars.contains(name) {
                    match spec_obj_get(obj, "span"@) {
                        Some(ScriptValueV::Obj(span)) => match spec_obj_get(span, "end"@) {
                            Some(ScriptValueV::Num(end)) => if 1 <= end && end
                                <= 0x1_0000_0000u64 {
                                seq![
                                    AddStringToPositionV {
                                        position: (end - 1) as u32,
                                        string: ".v"@,
                                    },
                                ]
                            } else {
                                Seq::empty()
                            },
                            _ => Seq::empty(),
                        },
                        _ => Seq::empty(),
                    }
                } else {
                    Seq::empty()
                },
                _ => Seq::empty(),
            }
        },
    }
}

/// The value-accessor insertions found in a script value: one at the end of
/// every bare identifier reference to a declared variable.
pub open spec fn spec_search_json(
    json: ScriptValueV,
    vars: Seq<Seq<char>>,
    parent: Option<Seq<(Seq<char>, ScriptValueV)>>,
) -> Seq<AddStringToPositionV>
    decreases json, 0int, 0int,
{
    match json {
        ScriptValueV::Obj(obj) => {
            if (match spec_obj_get(obj, "type"@) {
                Some(ScriptValueV::Str(t)) => t == "Identifier"@,
                _ => false,
            }) {
                spec_identifier_insertion(obj, vars, parent)
            } else {
                spec_search_obj(obj, 0, vars)
            }
        },
        ScriptValueV::Arr(arr) => spec_search_arr(arr, 0, vars),
        _ => Seq::empty(),
    }
}

/// The insertions found in an object's entries, from entry `k` on.
pub open spec fn spec_search_obj(
    obj: Seq<(Seq<char>, ScriptValueV)>,
    k: int,
    vars: Seq<Seq<char>>,
) -> Seq<AddStringToPositionV>
    decreases obj, 1int, obj.len() - k,
{
    if k < 0 || k >= obj.len() {
        Seq::empty()
    } else {
        spec_search_json(obj[k].1, vars, Some(obj)) + spec_search_obj(obj, k + 1, vars)
    }
}

/// The insertions found in an array's values, from value `k` on.
pub open spec fn spec_search_arr(arr: Seq<ScriptValueV>, k: int, vars: Seq<Seq<char>>) -> Seq<
    AddStringToPositionV,
>
    decreases arr, 1int, arr.len() - k,
{
    if k < 0 || k >= arr.len() {
        Seq::empty()
    } else {
        spec_search_json(arr[k], vars, None) + spec_search_arr(arr, k + 1, vars)
    }
}

/// Walks the script's structured form and records a value-accessor
/// insertion at the end of every bare identifier reference that names a
/// declared reactive variable and does not itself sit in a variable
/// declarator. Ill-formed spans (zero, or beyond the 32-bit range) yield no
/// insertion.
#[verifier::loop_isolation(false)]
pub fn search_json(
    json: &ScriptValue,
    variables: &Vec<String>,
    parent: Option<&Vec<(String, ScriptValue)>>,
) -> (r: Vec<AddStringToPosition>)
    ensures
        r.deep_view() == spec_search_json(
            sval_view(*json),
            variables.deep_view(),
            match parent {
                Some(p) => Some(sobj_view(p@)),
                None => None,
            },
        ),
    decreases *json,
{
    let ghost vars = variables.deep_view();
    let ghost pv: Option<Seq<(Seq<char>, ScriptValueV)>> = match parent {
        Some(p) => Some(sobj_view(p@)),
        None => None,
    };
    let mut result: Vec<AddStringToPosition> = Vec::new();
    match json {
        ScriptValue::Obj(obj) => {
            let ghost ov = sobj_view(obj@);
            proof {
                lemma_sobj_view(obj@);
            }
            let is_identifier = match obj_get(obj, "type") {
                Some(ScriptValue::Str(t)) => str_eq(t.as_str(), "Identifier"),
                _ => false,
            };
            if is_identifier {
                match parent {
                    None => {
                        proof {
                            assert(result.deep_view() =~= spec_search_json(
                                sval_view(*json),
                                vars,
                                pv,
                            ));
                        }
                    },
                    Some(p) => {
                        let parent_is_declarator = match obj_get(p, "type") {
                            Some(ScriptValue::Str(t)) => str_eq(t.as_str(), "VariableDeclarator"),
                            _ => false,
                        };
                        if !parent_is_declarator {
                            let name_matches = match obj_get(obj, "value") {
                                Some(ScriptValue::Str(name)) => contains_string(
                                    variables,
                                    name.as_str(),
                                ),
                                _ => false,
                            };
                            if name_matches {
                                match obj_get(obj, "span") {
                                    Some(ScriptValue::Obj(span)) => {
                                        match obj_get(span, "end") {
                                            Some(ScriptValue::Num(end)) => {
                                                let e = *end;
                                                if 1 <= e && e <= 0x1_0000_0000u64 {
                                                    result.push(
                                                        AddStringToPosition {
                                                            position: (e - 1) as u32,
                                                            string: String::from_str(".v"),
                                                        },
                                                    );
                                                }
                                            },
                                            _ => {},
                                        }
                                    },
                                    _ => {},
                                }
                            }
                        }
                        proof {
                            assert(result.deep_view() =~= spec_search_json(
                                sval_view(*json),
                                vars,
                                pv,
                            ));
                        }
                    },
                }
            } else {
                let mut k: usize = 0;
                proof {
                    assert(result.deep_view() =~= Seq::<AddStringToPositionV>::empty());
                }
                while k < obj.len()
                    invariant
                        0 <= k <= obj@.len(),
                        spec_search_obj(ov, 0, vars) == result.deep_view() + spec_search_obj(
                            ov,
                            k as int,
                            vars,
                        ),
                    decreases obj@.len() - k,
                {
                    let ghost old_deep = result.deep_view();
                    let mut sub = search_json(&obj[k].1, variables, Some(obj));
                    result.append(&mut sub);
                    k = k + 1;
                    proof {
                        assert(ov[k as int - 1] == (
                            obj@[k as int - 1].0@,
                            sval_view(obj@[k as int - 1].1),
                        ));
                        assert(spec_search_obj(ov, k as int - 1, vars) == spec_search_json(
                            ov[k as int - 1].1,
                            vars,
                            Some(ov),
                        ) + spec_search_obj(ov, k as int, vars));
                        assert(result.deep_view() =~= old_deep + spec_search_json(
                            ov[k as int - 1].1,
                            vars,
                            Some(ov),
                        ));
                        assert(result.deep_view() + spec_search_obj(ov, k as int, vars) =~= old_deep
                            + spec_search_obj(ov, k as int - 1, vars));
                    }
                }
                proof {
                    assert(spec_search_obj(ov, obj@.len() as int, vars) =~= Seq::<
                        AddStringToPositionV,
                    >::empty());
                    assert(result.deep_view() =~= spec_search_obj(ov, 0, vars));
                }
            }
        },
        ScriptValue::Arr(arr) => {
            let ghost av = svals_view(arr@);
            proof {
                lemma_svals_view(arr@);
            }
            let mut k: usize = 0;
            while k < arr.len()
                invariant
                    0 <= k <= arr@.len(),
                    spec_search_arr(av, 0, vars) == result.deep_view() + spec_search_arr(
                        av,
                        k as int,
                        vars,
                    ),
                decreases arr@.len() - k,
            {
                let ghost old_deep = result.deep_view();
                let mut sub = search_json(&arr[k], variables, None);
                result.append(&mut sub);
                k = k + 1;
                proof {
                    assert(av[k as int - 1] == sval_view(arr@[k as int - 1]));
                    assert(spec_search_arr(av, k as int - 1, vars) == spec_search_json(
                        av[k as int - 1],
                        vars,
                        None,
                    ) + spec_search_arr(av, k as int, vars));
                    assert(result.deep_view() =~= old_deep + spec_search_json(
                        av[k as int - 1],
                        vars,
                        None,
                    ));
                    assert(result.deep_view() + spec_search_arr(av, k as int, vars) =~= old_deep
                        + spec_search_arr(av, k as int - 1, vars));
                }
            }
            proof {
                assert(spec_search_arr(av, arr@.len() as int, vars) =~= Seq::<
                    AddStringToPositionV,
                >::empty());
                assert(result.deep_view() =~= spec_search_arr(av, 0, vars));
            }
        },
        _ => {
            proof {
                assert(result.deep_view() =~= spec_search_json(sval_view(*json), vars, pv));
            }
        },
    }
    result
}

/// The declared name of a variable declarator, if its form is recognized.
pub open spec fn spec_decl_name(d: ScriptValueV) -> Option<Seq<char>> {
    match d {
        ScriptValueV::Obj(o) => match spec_obj_get(o, "id"@) {
            Some(ScriptValueV::Obj(idobj)) => match spec_obj_get(idobj, "value"@) {
                Some(ScriptValueV::Str(nm)) => Some(nm),
                _ => None,
            },
            _ => None,
        },
        _ => None,
    }
}

/// The initializer span of a variable declarator, if its form is
/// recognized.
pub open spec fn spec_decl_span(d: ScriptValueV) -> Option<(u64, u64)> {
    match d {
        ScriptValueV::Obj(o) => match spec_obj_get(o, "init"@) {
            Some(ScriptValueV::Obj(init)) => match spec_obj_get(init, "span"@) {
                Some(ScriptValueV::Obj(span)) => match spec_obj_get(span, "start"@) {
                    Some(ScriptValueV::Num(st)) => match spec_obj_get(span, "end"@) {
                        Some(ScriptValueV::Num(en)) => Some((st, en)),
                        _ => None,
                    },
                    _ => None,
                },
                _ => None,
            },
            _ => None,
        },
        _ => None,
    }
}

/// Whether a one-based span offset pair can be turned into 32-bit insert
/// positions.
pub open spec fn spec_span_ok(sp: (u64, u64)) -> bool {
    1 <= sp.0 <= 0x1_0000_0000u64 && 1 <= sp.1 <= 0x1_0000_0000u64
}

/// The closing text of a reactive-cell constructor carrying the variable's
/// mask and the shared register handle.
pub open spec fn spec_wrap_suffix(mask: u32) -> Seq<char> {
    ", "@ + spec_dec(mask as nat) + ", refs)"@
}

/// The variables and insertions contributed by a declarator list from
/// position `j` on, with `c` masks already assigned.
pub open spec fn spec_fvd_decls(decls: Seq<ScriptValueV>, j: int, c: nat) -> Result<
    (Seq<VariableNameAndAssignedNumberV>, Seq<AddStringToPositionV>, nat),
    CompileErrorV,
>
    decreases decls.len() - j,
{
    if j < 0 || j >= decls.len() {
        Ok((Seq::empty(), Seq::empty(), c))
    } else {
        let d = decls[j];
        if spec_decl_name(d) is Some && spec_decl_span(d) is Some && spec_span_ok(
            spec_decl_span(d)->0,
        ) {
            if c >= 32 {
                Err(CompileErrorV::RegisterOverflow)
            } else {
                let nm = spec_decl_name(d)->0;
                let sp = spec_decl_span(d)->0;
                let mask = 1u32 << (c as u32);
                match spec_fvd_decls(decls, j + 1, c + 1) {
                    Err(e) => Err(e),
                    Ok((vs, ads, c2)) => Ok(
                        (
                            seq![VariableNameAndAssignedNumberV { name: nm, assignment: mask }]
                                + vs,
                            seq![
                                AddStringToPositionV {
                                    position: (sp.0 - 1) as u32,
                                    string: "reactiveValue("@,
                                },
                                AddStringToPositionV {
                                    position: (sp.1 - 1) as u32,
                                    string: spec_wrap_suffix(mask),
                                },
                            ] + ads,
                            c2,
                        ),
                    ),
                }
            }
        } else {
            spec_fvd_decls(decls, j + 1, c)
        }
    }
}

/// The variables and insertions contributed by the top-level statement list
/// from position `k` on, with `c` masks already assigned.
pub open spec fn spec_fvd_items(body: Seq<ScriptValueV>, k: int, c: nat) -> Result<
    (Seq<VariableNameAndAssignedNumberV>, Seq<AddStringToPositionV>, nat),
    CompileErrorV,
>
    decreases body.len() - k,
{
    if k < 0 || k >= body.len() {
        Ok((Seq::empty(), Seq::empty(), c))
    } else {
        let decls: Option<Seq<ScriptValueV>> = match body[k] {
            ScriptValueV::Obj(o) => if (match spec_obj_get(o, "type"@) {
                Some(ScriptValueV::Str(t)) => t == "VariableDeclaration"@,
                _ => false,
            }) {
                match spec_obj_get(o, "declarations"@) {
                    Some(ScriptValueV::Arr(ds)) => Some(ds),
                    _ => None,
                }
            } else {
                None
            },
            _ => None,
        };
        match decls {
            Some(ds) => match spec_fvd_decls(ds, 0, c) {
                Err(e) => Err(e),
                Ok((vs, ads, c2)) => match spec_fvd_items(body, k + 1, c2) {
                    Err(e) => Err(e),
                    Ok((vs2, ads2, c3)) => Ok((vs + vs2, ads + ads2, c3)),
                },
            },
            None => spec_fvd_items(body, k + 1, c),
        }
    }
}

/// The reactive variables of the script and the insertions that wrap their
/// initializers: each top-level declaration gets the next power-of-two
/// mask; a script whose top level is not a statement list declares nothing.
pub open spec fn spec_find_variable_declarations(json: ScriptValueV) -> Result<
    (Seq<VariableNameAndAssignedNumberV>, Seq<AddStringToPositionV>),
    CompileErrorV,
> {
    match json {
        ScriptValueV::Obj(o) => match spec_obj_get(o, "body"@) {
            Some(ScriptValueV::Arr(body)) => match spec_fvd_items(body, 0, 0) {
                Err(e) => Err(e),
                Ok((vs, ads, _)) => Ok((vs, ads)),
            },
            _ => Ok((Seq::empty(), Seq::empty())),
        },
        _ => Ok((Seq::empty(), Seq::empty())),
    }
}

fn fvd_decls(decls: &Vec<ScriptValue>, j: usize, c: u32) -> (r: Result<
    (Vec<VariableNameAndAssignedNumber>, Vec<AddStringToPosition>, u32),
    CompileError,
>)
    requires
        c <= 32,
    ensures
        match r {
            Ok((vs, ads, c2)) => spec_fvd_decls(svals_view(decls@), j as int, c as nat) == Ok::<
                _,
                CompileErrorV,
            >((vs.deep_view(), ads.deep_view(), c2 as nat)) && c2 <= 32 && c <= c2,
            Err(e) => spec_fvd_decls(svals_view(decls@), j as int, c as nat) == Err::<
                (Seq<VariableNameAndAssignedNumberV>, Seq<AddStringToPositionV>, nat),
                _,
            >(e@),
        },
    decreases decls@.len() - j,
{
    let ghost dv = svals_view(decls@);
    proof {
        lemma_svals_view(decls@);
    }
    if j >= decls.len() {
        let r = (Vec::new(), Vec::new(), c);
        proof {
            assert(r.0.deep_view() =~= Seq::<VariableNameAndAssignedNumberV>::empty());
            assert(r.1.deep_view() =~= Seq::<AddStringToPositionV>::empty());
        }
        return Ok(r);
    }
    let d = &decls[j];
    proof {
        assert(dv[j as int] == sval_view(decls@[j as int]));
    }
    let name: Option<&String> = match d {
        ScriptValue::Obj(o) => match obj_get(o, "id") {
            Some(ScriptValue::Obj(idobj)) => match obj_get(idobj, "value") {
                Some(ScriptValue::Str(nm)) => Some(nm),
                _ => None,
            },
            _ => None,
        },
        _ => None,
    };
    let span: Option<(u64, u64)> = match d {
        ScriptValue::Obj(o) => match obj_get(o, "init") {
            Some(ScriptValue::Obj(init)) => match obj_get(init, "span") {
                Some(ScriptValue::Obj(span)) => match obj_get(span, "start") {
                    Some(ScriptValue::Num(st)) => match obj_get(span, "end") {
                        Some(ScriptValue::Num(en)) => Some((*st, *en)),
                        _ => None,
                    },
                    _ => None,
                },
                _ => None,
            },
            _ => None,
        },
        _ => None,
    };
    proof {
        match name {
            Some(nm) => {
                assert(spec_decl_name(dv[j as int]) == Some(nm@));
            },
            None => {
                assert(spec_decl_name(dv[j as int]) is None);
            },
        }
        match span {
            Some(sp) => {
                assert(spec_decl_span(dv[j as int]) == Some(sp));
            },
            None => {
                assert(spec_decl_span(dv[j as int]) is None);
            },
        }
    }
    match (name, span) {
        (Some(nm), Some(sp)) => {
            if 1 <= sp.0 && sp.0 <= 0x1_0000_0000u64 && 1 <= sp.1 && sp.1 <= 0x1_0000_0000u64 {
                if c >= 32 {
                    return Err(CompileError::RegisterOverflow);
                }
                let mask: u32 = 1u32 << c;
                let nm_owned = nm.clone();
                match fvd_decls(decls, j + 1, c + 1) {
                    Err(e) => Err(e),
                    Ok((vs, ads, c2)) => {
                        let mut out_vs: Vec<VariableNameAndAssignedNumber> = Vec::new();
                        out_vs.push(
                            VariableNameAndAssignedNumber { name: nm_owned, assignment: mask },
                        );
                        let mut vs = vs;
                        out_vs.append(&mut vs);
                        let mut out_ads: Vec<AddStringToPosition> = Vec::new();
                        out_ads.push(
                            AddStringToPosition {
                                position: (sp.0 - 1) as u32,
                                string: String::from_str("reactiveValue("),
                            },
                        );
                        let mut suffix = String::from_str(", ");
                        let mask_str = u32_to_string(mask);
                        suffix.append(mask_str.as_str());
                        suffix.append(", refs)");
                        out_ads.push(
                            AddStringToPosition { position: (sp.1 - 1) as u32, string: suffix },
                        );
                        let mut ads = ads;
                        out_ads.append(&mut ads);
                        proof {
                            let full = spec_fvd_decls(dv, j as int, c as nat);
                            assert(full is Ok);
                            let (svs, sads, sc2) = full->Ok_0;
                            assert(out_vs.deep_view() =~= svs);
                            assert(out_ads.deep_view()[1].string =~= spec_wrap_suffix(mask));
                            assert(out_ads.deep_view() =~= sads);
                        }
                        Ok((out_vs, out_ads, c2))
                    },
                }
            } else {
                let r = fvd_decls(decls, j + 1, c);
                proof {
                    assert(spec_fvd_decls(dv, j as int, c as nat) == spec_fvd_decls(
                        dv,
                        j as int + 1,
                        c as nat,
                    ));
                }
                r
            }
        },
        _ => {
            let r = fvd_decls(decls, j + 1, c);
            proof {
                assert(spec_fvd_decls(dv, j as int, c as nat) == spec_fvd_decls(
                    dv,
                    j as int + 1,
                    c as nat,
                ));
            }
            r
        },
    }
}

fn fvd_items(body: &Vec<ScriptValue>, k: usize, c: u32) -> (r: Result<
    (Vec<VariableNameAndAssignedNumber>, Vec<AddStringToPosition>, u32),
    CompileError,
>)
    requires
        c <= 32,
    ensures
        match r {
            Ok((vs, ads, c2)) => spec_fvd_items(svals_view(body@), k as int, c as nat) == Ok::<
                _,
                CompileErrorV,
            >((vs.deep_view(), ads.deep_view(), c2 as nat)) && c2 <= 32 && c <= c2,
            Err(e) => spec_fvd_items(svals_view(body@), k as int, c as nat) == Err::<
                (Seq<VariableNameAndAssignedNumberV>, Seq<AddStringToPositionV>, nat),
                _,
            >(e@),
        },
    decreases body@.len() - k,
{
    let ghost bv = svals_view(body@);
    proof {
        lemma_svals_view(body@);
    }
    if k >= body.len() {
        let r = (Vec::new(), Vec::new(), c);
        proof {
            assert(r.0.deep_view() =~= Seq::<VariableNameAndAssignedNumberV>::empty());
            assert(r.1.deep_view() =~= Seq::<AddStringToPositionV>::empty());
        }
        return Ok(r);
    }
    proof {
        assert(bv[k as int] == sval_view(body@[k as int]));
    }
    let decls: Option<&Vec<ScriptValue>> = match &body[k] {
        ScriptValue::Obj(o) => {
            let is_decl = match obj_get(o, "type") {
                Some(ScriptValue::Str(t)) => str_eq(t.as_str(), "VariableDeclaration"),
                _ => false,
            };
            if is_decl {
                match obj_get(o, "declarations") {
                    Some(ScriptValue::Arr(ds)) => Some(ds),
                    _ => None,
                }
            } else {
                None
            }
        },
        _ => None,
    };
    match decls {
        Some(ds) => {
            match fvd_decls(ds, 0, c) {
                Err(e) => Err(e),
                Ok((vs, ads, c2)) => {
                    match fvd_items(body, k + 1, c2) {
                        Err(e) => Err(e),
                        Ok((vs2, ads2, c3)) => {
                            let mut vs = vs;
                            let mut vs2 = vs2;
                            let mut ads = ads;
                            let mut ads2 = ads2;
                            vs.append(&mut vs2);
                            ads.append(&mut ads2);
                            proof {
                                let full = spec_fvd_items(bv, k as int, c as nat);
                                assert(full is Ok);
                                let (svs, sads, sc3) = full->Ok_0;
                                assert(vs.deep_view() =~= svs);
                                assert(ads.deep_view() =~= sads);
                            }
                            Ok((vs, ads, c3))
                        },
                    }
                },
            }
        },
        None => {
            let r = fvd_items(body, k + 1, c);
            proof {
                assert(spec_fvd_items(bv, k as int, c as nat) == spec_fvd_items(
                    bv,
                    k as int + 1,
                    c as nat,
                ));
            }
            r
        },
    }
}

/// Scans the script's top-level statements for variable declarations,
/// assigning each declared variable the next power-of-two mask in source
/// order, and records the two insertions that wrap each initializer in the
/// reactive-cell constructor. Declaring more than 32 variables is a
/// register-overflow error; a declarator of unrecognized form, or one whose
/// span cannot index the text, is passed over.
pub fn find_variable_declarations(json: &ScriptValue) -> (r: Result<
    (Vec<VariableNameAndAssignedNumber>, Vec<AddStringToPosition>),
    CompileError,
>)
    ensures
        match r {
            Ok((vs, ads)) => spec_find_variable_declarations(sval_view(*json)) == Ok::<
                _,
                CompileErrorV,
            >((vs.deep_view(), ads.deep_view())) && vs@.len() <= 32,
            Err(e) => spec_find_variable_declarations(sval_view(*json)) == Err::<
                (Seq<VariableNameAndAssignedNumberV>, Seq<AddStringToPositionV>),
                _,
            >(e@),
        },
{
    let body: Option<&Vec<ScriptValue>> = match json {
        ScriptValue::Obj(o) => match obj_get(o, "body") {
            Some(ScriptValue::Arr(body)) => Some(body),
            _ => None,
        },
        _ => None,
    };
    match body {
        Some(b) => match fvd_items(b, 0, 0) {
            Err(e) => Err(e),
            Ok((vs, ads, c2)) => {
                proof {
                    lemma_fvd_items_count(svals_view(b@), 0, 0);
                }
                Ok((vs, ads))
            },
        },
        None => {
            let r: (Vec<VariableNameAndAssignedNumber>, Vec<AddStringToPosition>) = (
                Vec::new(),
                Vec::new(),
            );
            proof {
                assert(r.0.deep_view() =~= Seq::<VariableNameAndAssignedNumberV>::empty());
                assert(r.1.deep_view() =~= Seq::<AddStringToPositionV>::empty());
            }
            Ok(r)
        },
    }
}

/// The masks a declarator list assigns, starting at `c`, are consecutive
/// powers of two.
pub proof fn lemma_fvd_decls_assignments(decls: Seq<ScriptValueV>, j: int, c: nat)
    requires
        c <= 32,
    ensures
        match spec_fvd_decls(decls, j, c) {
            Ok((vs, ads, c2)) => c2 == c + vs.len() && c2 <= 32 && forall|i: int|
                0 <= i < vs.len() ==> (#[trigger] vs[i]).assignment == 1u32 << ((c + i) as u32),
            Err(_) => true,
        },
    decreases decls.len() - j,
{
    if 0 <= j < decls.len() {
        let d = decls[j];
        if spec_decl_name(d) is Some && spec_decl_span(d) is Some && spec_span_ok(
            spec_decl_span(d)->0,
        ) {
            if c < 32 {
                lemma_fvd_decls_assignments(decls, j + 1, c + 1);
            }
        } else {
            lemma_fvd_decls_assignments(decls, j + 1, c);
        }
    }
}

/// The masks the statement list assigns, starting at `c`, are consecutive
/// powers of two.
pub proof fn lemma_fvd_items_count(body: Seq<ScriptValueV>, k: int, c: nat)
    requires
        c <= 32,
    ensures
        match spec_fvd_items(body, k, c) {
            Ok((vs, ads, c2)) => c2 == c + vs.len() && c2 <= 32 && forall|i: int|
                0 <= i < vs.len() ==> (#[trigger] vs[i]).assignment == 1u32 << ((c + i) as u32),
            Err(_) => true,
        },
    decreases body.len() - k,
{
    if 0 <= k < body.len() {
        let decls: Option<Seq<ScriptValueV>> = match body[k] {
            ScriptValueV::Obj(o) => if (match spec_obj_get(o, "type"@) {
                Some(ScriptValueV::Str(t)) => t == "VariableDeclaration"@,
                _ => false,
            }) {
                match spec_obj_get(o, "declarations"@) {
                    Some(ScriptValueV::Arr(ds)) => Some(ds),
                    _ => None,
                }
            } else {
                None
            },
            _ => None,
        };
        match decls {
            Some(ds) => {
                lemma_fvd_decls_assignments(ds, 0, c);
                match spec_fvd_decls(ds, 0, c) {
                    Ok((vs, ads, c2)) => {
                        lemma_fvd_items_count(body, k + 1, c2);
                    },
                    Err(_) => {},
                }
            },
            None => {
                lemma_fvd_items_count(body, k + 1, c);
            },
        }
    }
}

/// The script text with every recorded insertion applied, left to right,
/// from entry `k` and text position `from` on.
pub open spec fn spec_add_strings(
    ps: Seq<AddStringToPositionV>,
    k: int,
    script: Seq<char>,
    from: int,
) -> Seq<char>
    decreases ps.len() - k,
{
    if k < 0 || k >= ps.len() {
        script.subrange(from, script.len() as int)
    } else {
        script.subrange(from, ps[k].position as int) + ps[k].string + spec_add_strings(
            ps,
            k + 1,
            script,
            ps[k].position as int,
        )
    }
}

/// Applies the recorded insertions to the script text in one left-to-right
/// pass. Positions count characters, must not pass the end of the text,
/// and must be pre-sorted ascending.
#[verifier::loop_isolation(false)]
pub fn add_strings_to_script(position_and_strs: Vec<AddStringToPosition>, script: &String) -> (r:
    String)
    requires
        forall|k: int|
            0 <= k < position_and_strs@.len() ==> (#[trigger] position_and_strs@[k])@.position
                <= script@.len(),
        forall|k: int|
            0 <= k < position_and_strs@.len() - 1 ==> (#[trigger] position_and_strs@[k])@.position
                <= position_and_strs@[k + 1]@.position,
    ensures
        r@ == spec_add_strings(position_and_strs.deep_view(), 0, script@, 0),
{
    let ghost ps = position_and_strs.deep_view();
    let s = script.as_str();
    let n = s.unicode_len();
    let mut out = String::new();
    let mut last: usize = 0;
    let mut i: usize = 0;
    proof {
        assert(ps.len() == position_and_strs@.len());
        assert forall|k: int| 0 <= k < ps.len() implies (#[trigger] ps[k]).position
            <= script@.len() by {
            assert(ps[k] == position_and_strs@[k]@);
        }
        assert forall|k: int| 0 <= k < ps.len() - 1 implies (#[trigger] ps[k]).position <= ps[k
            + 1].position by {
            assert(ps[k] == position_and_strs@[k]@);
            assert(ps[k + 1] == position_and_strs@[k + 1]@);
        }
    }
    while i < position_and_strs.len()
        invariant
            0 <= i <= ps.len(),
            last <= n == script@.len(),
            i < ps.len() ==> last <= ps[i as int].position,
            spec_add_strings(ps, 0, script@, 0) == out@ + spec_add_strings(
                ps,
                i as int,
                script@,
                last as int,
            ),
        decreases ps.len() - i,
    {
        let p = position_and_strs[i].position as usize;
        proof {
            assert(ps[i as int] == position_and_strs@[i as int]@);
        }
        out.append(s.substring_char(last, p));
        out.append(position_and_strs[i].string.as_str());
        last = p;
        i = i + 1;
        proof {
            assert(spec_add_strings(ps, i as int - 1, script@, last as int) == script@.subrange(
                last as int,
                ps[i as int - 1].position as int,
            ) + ps[i as int - 1].string + spec_add_strings(
                ps,
                i as int,
                script@,
                ps[i as int - 1].position as int,
            ));
        }
    }
    out.append(s.substring_char(last, n));
    proof {
        assert(spec_add_strings(ps, ps.len() as int, script@, last as int) == script@.subrange(
            last as int,
            script@.len() as int,
        ));
    }
    out
}

/// The order of two insertions: by position.
pub open spec fn spec_position_le(a: AddStringToPositionV, b: AddStringToPositionV) -> bool {
    a.position <= b.position
}

/// Sorts the insertions by position, stably: at equal positions the
/// value-accessor suffixes, listed first, are applied before the
/// constructor-wrapping text.
pub fn sort_positions(v: &mut Vec<AddStringToPosition>)
    ensures
        final (v).deep_view() == spec_insertion_sort(
            old(v).deep_view(),
            |a: AddStringToPositionV, b: AddStringToPositionV| spec_position_le(a, b),
        ),
{
    let ghost le = |a: AddStringToPositionV, b: AddStringToPositionV| spec_position_le(a, b);
    let ghost orig = v.deep_view();
    let mut out: Vec<AddStringToPosition> = Vec::new();
    let ghost i: int = 0;
    proof {
        assert(orig.take(0) =~= Seq::<AddStringToPositionV>::empty());
        assert(v.deep_view() =~= orig.skip(0));
    }
    while v.len() > 0
        invariant
            0 <= i <= orig.len(),
            v.deep_view() == orig.skip(i),
            v@.len() == orig.len() - i,
            out.deep_view() == spec_insertion_sort(orig.take(i), le),
            le == (|a: AddStringToPositionV, b: AddStringToPositionV| spec_position_le(a, b)),
        decreases v@.len(),
    {
        let ghost prev = v.deep_view();
        let ghost prevv = v@;
        let x = v.remove(0);
        proof {
            assert(x == prevv[0]);
            assert(x@ == prev[0]);
            assert(x@ == orig.skip(i)[0]);
            assert(x@ == orig[i]);
            assert forall|k: int| 0 <= k < v@.len() implies #[trigger] v.deep_view()[k] == orig.skip(
                i + 1,
            )[k] by {
                assert(v@[k] == prevv.remove(0)[k]);
                assert(v@[k] == prevv[k + 1]);
                assert(v.deep_view()[k] == prev[k + 1]);
                assert(prev[k + 1] == orig.skip(i)[k + 1]);
                assert(orig.skip(i)[k + 1] == orig.skip(i + 1)[k]);
            }
            assert(v.deep_view() =~= orig.skip(i + 1));
        }
        let ghost sorted = out.deep_view();
        let mut j: usize = out.len();
        while j > 0 && !(out[j - 1].position <= x.position)
            invariant
                0 <= j <= out@.len(),
                out.deep_view() == sorted,
                x@ == orig[i],
                forall|k: int| j <= k < sorted.len() ==> !le(#[trigger] sorted[k], x@),
                le == (|a: AddStringToPositionV, b: AddStringToPositionV| spec_position_le(a, b)),
            decreases j,
        {
            j = j - 1;
            proof {
                assert(sorted[j as int] == out@[j as int]@);
                assert(!le(sorted[j as int], x@));
            }
        }
        proof {
            if j > 0 {
                assert(sorted[j as int - 1] == out@[j as int - 1]@);
                assert(le(sorted[j as int - 1], x@));
            }
            lemma_insert_sorted_at(x@, sorted, le, j as int);
        }
        out.insert(j, x);
        proof {
            assert(out.deep_view() =~= sorted.subrange(0, j as int) + seq![orig[i]]
                + sorted.subrange(j as int, sorted.len() as int));
            assert(out.deep_view() == spec_insert_sorted(orig[i], sorted, le));
            assert(orig.take(i + 1).drop_last() =~= orig.take(i));
            assert(orig.take(i + 1).last() == orig[i]);
        }
        proof {
            i = i + 1;
        }
    }
    proof {
        assert(orig.take(orig.len() as int) =~= orig);
    }
    *v = out;
}

/// The insertions whose positions can index the text.
pub open spec fn spec_clip_positions(ps: Seq<AddStringToPositionV>, len: nat) -> Seq<
    AddStringToPositionV,
>
    decreases ps.len(),
{
    if ps.len() == 0 {
        Seq::empty()
    } else {
        spec_clip_positions(ps.drop_last(), len) + (if ps.last().position <= len {
            seq![ps.last()]
        } else {
            Seq::<AddStringToPositionV>::empty()
        })
    }
}

fn clip_positions(v: Vec<AddStringToPosition>, len: usize) -> (r: Vec<AddStringToPosition>)
    ensures
        r.deep_view() == spec_clip_positions(v.deep_view(), len as nat),
        forall|k: int| 0 <= k < r@.len() ==> (#[trigger] r@[k])@.position <= len,
{
    let ghost ps = v.deep_view();
    let mut out: Vec<AddStringToPosition> = Vec::new();
    let mut i: usize = 0;
    proof {
        assert(out.deep_view() =~= spec_clip_positions(ps.take(0), len as nat));
        assert(ps.take(0) =~= Seq::<AddStringToPositionV>::empty());
    }
    while i < v.len()
        invariant
            0 <= i <= ps.len(),
            ps == v.deep_view(),
            ps.len() == v@.len(),
            out.deep_view() == spec_clip_positions(ps.take(i as int), len as nat),
            forall|k: int| 0 <= k < out@.len() ==> (#[trigger] out@[k])@.position <= len,
        decreases ps.len() - i,
    {
        let ghost old_deep = out.deep_view();
        let keep = v[i].position as usize <= len;
        if keep {
            let item = AddStringToPosition {
                position: v[i].position,
                string: v[i].string.clone(),
            };
            out.push(item);
        }
        i = i + 1;
        proof {
            assert(ps.take(i as int).drop_last() =~= ps.take(i as int - 1));
            assert(ps.take(i as int).last() == ps[i as int - 1]);
            assert(ps[i as int - 1] == v@[i as int - 1]@);
            if keep {
                assert(out.deep_view() =~= old_deep + seq![ps[i as int - 1]]);
            } else {
                assert(out.deep_view() =~= old_deep + Seq::<AddStringToPositionV>::empty());
            }
        }
    }
    proof {
        assert(ps.take(ps.len() as int) =~= ps);
    }
    out
}

/// What the script analyzer hands the rest of the pipeline: the reactive
/// variables with their masks, the variable names in declaration order, and
/// the script text rewritten so that initializers build reactive cells and
/// bare references read current values.
pub open spec fn spec_analyze_js(json: ScriptValueV, script: Seq<char>) -> Result<
    (Seq<VariableNameAndAssignedNumberV>, Seq<Seq<char>>, Seq<char>),
    CompileErrorV,
> {
    match spec_find_variable_declarations(json) {
        Err(e) => Err(e),
        Ok((vs, decl_ads)) => {
            let names = Seq::new(vs.len(), |i: int| vs[i].name);
            let ref_ads = spec_search_json(json, names, None);
            let sorted = spec_insertion_sort(
                spec_clip_positions(ref_ads + decl_ads, script.len()),
                |a: AddStringToPositionV, b: AddStringToPositionV| spec_position_le(a, b),
            );
            Ok((vs, names, spec_add_strings(sorted, 0, script, 0)))
        },
    }
}

/// Analyzes the embedded script: assigns each top-level reactive variable
/// its power-of-two mask and produces the rewritten script text.
pub fn analyze_js(json: &ScriptValue, script: &String) -> (r: Result<
    (Vec<VariableNameAndAssignedNumber>, Vec<String>, String),
    CompileError,
>)
    ensures
        match r {
            Ok((vs, names, out)) => spec_analyze_js(sval_view(*json), script@) == Ok::<
                _,
                CompileErrorV,
            >((vs.deep_view(), names.deep_view(), out@)) && vs@.len() <= 32,
            Err(e) => spec_analyze_js(sval_view(*json), script@) == Err::<
                (Seq<VariableNameAndAssignedNumberV>, Seq<Seq<char>>, Seq<char>),
                _,
            >(e@),
        },
{
    let ghost le = |a: AddStringToPositionV, b: AddStringToPositionV| spec_position_le(a, b);
    match find_variable_declarations(json) {
        Err(e) => Err(e),
        Ok((vs, decl_ads)) => {
            let ghost names_spec = Seq::new(vs.deep_view().len(), |i: int| vs.deep_view()[i].name);
            let mut names: Vec<String> = Vec::new();
            let mut i: usize = 0;
            while i < vs.len()
                invariant
                    0 <= i <= vs@.len(),
                    names_spec == Seq::new(
                        vs.deep_view().len(),
                        |i: int| vs.deep_view()[i].name,
                    ),
                    names.deep_view() =~= names_spec.take(i as int),
                decreases vs@.len() - i,
            {
                let ghost old_names = names.deep_view();
                let ghost nm = vs@[i as int]@.name;
                names.push(vs[i].name.clone());
                i = i + 1;
                proof {
                    assert(names.deep_view() =~= old_names.push(nm));
                    assert(vs.deep_view()[i as int - 1] == vs@[i as int - 1]@);
                    assert(names_spec[i as int - 1] == nm);
                    assert(names_spec.take(i as int) =~= names_spec.take(i as int - 1).push(nm));
                    assert(names.deep_view() =~= names_spec.take(i as int));
                }
            }
            proof {
                assert(names_spec.take(vs@.len() as int) =~= names_spec);
            }
            let ref_ads = search_json(json, &names, None);
            let ghost ref_deep = ref_ads.deep_view();
            let ghost decl_deep = decl_ads.deep_view();
            let mut all = ref_ads;
            let mut decl_ads = decl_ads;
            all.append(&mut decl_ads);
            proof {
                assert(all.deep_view() =~= ref_deep + decl_deep);
            }
            let n = script.as_str().unicode_len();
            let mut clipped = clip_positions(all, n);
            proof {
                assert(clipped.deep_view() == spec_clip_positions(
                    spec_search_json(sval_view(*json), names_spec, None)
                        + spec_find_variable_declarations(sval_view(*json))->Ok_0.1,
                    script@.len(),
                ));
            }
            let ghost clipped_v = clipped.deep_view();
            sort_positions(&mut clipped);
            proof {
                lemma_insertion_sort_sorted(clipped_v, le);
                lemma_insertion_sort_all(
                    clipped_v,
                    le,
                    |a: AddStringToPositionV| a.position <= script@.len(),
                );
                assert forall|k: int| 0 <= k < clipped_v.len() implies (|a: AddStringToPositionV|
                    a.position <= script@.len())(#[trigger] clipped_v[k]) by {
                    assert(clipped_v[k].position <= script@.len());
                }
                assert forall|k: int| 0 <= k < clipped@.len() implies (
                #[trigger] clipped@[k])@.position <= script@.len() by {
                    assert(clipped.deep_view()[k] == clipped@[k]@);
                    assert((|a: AddStringToPositionV| a.position <= script@.len())(
                        clipped.deep_view()[k],
                    ));
                }
                assert forall|k: int| 0 <= k < clipped@.len() - 1 implies (
                #[trigger] clipped@[k])@.position <= clipped@[k + 1]@.position by {
                    assert(spec_sorted_by(clipped.deep_view(), le));
                    assert(le(clipped.deep_view()[k], clipped.deep_view()[k + 1]));
                }
            }
            let out = add_strings_to_script(clipped, script);
            Ok((vs, names, out))
        },
    }
}

} // verus!
