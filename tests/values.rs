use linked_hash_map::LinkedHashMap;
use starlark::{
    repr, to_str, FunctionArg, FunctionParameter, FunctionType, NativeFunction, Value,
    ValueError, WrappedMethod,
};
use std::cmp::Ordering;

fn s(x: &str) -> Value {
    Value::Str(x.to_string())
}

fn sample_signature() -> Vec<FunctionParameter> {
    vec![
        FunctionParameter::Normal("a".to_string()),
        FunctionParameter::Optional("b".to_string()),
        FunctionParameter::WithDefaultValue("c".to_string(), Value::Bool(true)),
        FunctionParameter::ArgsArray("args".to_string()),
        FunctionParameter::KWArgsDict("kwargs".to_string()),
    ]
}

#[test]
fn bool_textual_forms() {
    assert_eq!(Value::Bool(true).to_repr(), "True");
    assert_eq!(Value::Bool(false).to_repr(), "False");
    assert_eq!(Value::Bool(true).to_str(), "True");
    assert_eq!(Value::Bool(false).get_type(), "bool");
}

#[test]
fn bool_coercions() {
    assert_eq!(Value::Bool(true).to_int().unwrap(), 1);
    assert_eq!(Value::Bool(false).to_int().unwrap(), 0);
    assert!(Value::Bool(true).to_bool());
    assert!(!Value::Bool(false).to_bool());
    match s("x").to_int() {
        Err(ValueError::NotConvertible(op, t)) => {
            assert_eq!(op, "int");
            assert_eq!(t, "string");
        }
        other => panic!("unexpected {:?}", other),
    }
}

#[test]
fn bool_hash_equals_compare() {
    assert_eq!(Value::Bool(true).get_hash().unwrap(), 1);
    assert_eq!(Value::Bool(false).get_hash().unwrap(), 0);
    assert!(Value::Bool(true).equals(&Value::Bool(true)).unwrap());
    assert!(!Value::Bool(true).equals(&Value::Bool(false)).unwrap());
    assert_eq!(Value::Bool(false).compare(&Value::Bool(true)).unwrap(), Ordering::Less);
    assert_eq!(Value::Bool(true).compare(&Value::Bool(true)).unwrap(), Ordering::Equal);
    assert!(matches!(
        Value::Bool(true).compare(&s("a")),
        Err(ValueError::NotOrderable(_, _))
    ));
}

#[test]
fn equal_values_hash_alike() {
    let a = s("hello");
    let b = s("hello");
    assert!(a.equals(&b).unwrap());
    assert_eq!(a.get_hash().unwrap(), b.get_hash().unwrap());
    assert_ne!(a.get_hash().unwrap(), s("hellp").get_hash().unwrap());
    // 'a' is 97, 'b' is 98: 97 * 31 + 98
    assert_eq!(s("ab").get_hash().unwrap(), 3105);
    assert_eq!(Value::Int(-1).get_hash().unwrap(), u64::MAX);
    let l = Value::List { items: vec![Value::Int(1)], frozen: false };
    assert!(matches!(l.get_hash(), Err(ValueError::Unhashable(t)) if t == "list"));
}

#[test]
fn container_equality() {
    let a = Value::List { items: vec![Value::Int(1), s("x")], frozen: false };
    let b = Value::List { items: vec![Value::Int(1), s("x")], frozen: true };
    let c = Value::List { items: vec![Value::Int(1), s("y")], frozen: false };
    assert!(a.equals(&b).unwrap());
    assert!(!a.equals(&c).unwrap());
    assert!(!a.equals(&Value::Int(1)).unwrap());
}

#[test]
fn reprs_of_values() {
    assert_eq!(Value::NoneType.to_repr(), "None");
    assert_eq!(Value::Int(-42).to_repr(), "-42");
    assert_eq!(s("hi").to_repr(), "\"hi\"");
    let l = Value::List { items: vec![Value::Int(1), Value::Bool(false)], frozen: false };
    assert_eq!(l.to_repr(), "[1, False]");
    let d = Value::Dict { entries: vec![(s("k"), Value::Int(2))], frozen: false };
    assert_eq!(d.to_repr(), "{\"k\": 2}");
}

#[test]
fn function_renderings() {
    let ft = FunctionType::Native("f".to_string());
    let sig = sample_signature();
    assert_eq!(repr(&ft, &sig), "<native function f>(a, ?b, c = True, *args, **kwargs)");
    assert_eq!(to_str(&ft, &sig), "f(a, b, c = True, *args, **kwargs)");
    let v = NativeFunction::new("f".to_string(), sample_signature());
    assert_eq!(v.to_repr(), "<native function f>(a, ?b, c = True, *args, **kwargs)");
    assert_eq!(v.to_str(), "f(a, b, c = True, *args, **kwargs)");
    let def = FunctionType::Def("g".to_string(), "m".to_string());
    assert_eq!(repr(&def, &[]), "<function g from m>()");
    assert_eq!(to_str(&def, &[]), "g()");
}

#[test]
fn freeze_is_transitive() {
    let inner = Value::List { items: vec![Value::Int(1)], frozen: false };
    let mut outer = Value::List { items: vec![inner], frozen: false };
    assert!(!outer.is_frozen());
    outer.freeze();
    assert!(outer.is_frozen());
    let children = outer.values_for_descendant_check_and_freeze();
    assert_eq!(children.len(), 1);
    assert!(children[0].is_frozen());
    let mut child = children.into_iter().next().unwrap();
    assert!(matches!(child.list_append(Value::Int(2)), Err(ValueError::CannotMutateFrozenValue)));
    assert!(matches!(outer.list_append(Value::Int(2)), Err(ValueError::CannotMutateFrozenValue)));
}

#[test]
fn append_to_unfrozen_list() {
    let mut l = Value::List { items: vec![], frozen: false };
    l.list_append(Value::Int(7)).unwrap();
    assert_eq!(l.to_repr(), "[7]");
    let mut b = Value::Bool(true);
    assert!(matches!(b.list_append(Value::Int(7)), Err(ValueError::OperationNotSupported(_, _))));
}

#[test]
fn dict_children_alternate_keys_and_values() {
    let d = Value::Dict { entries: vec![(s("k"), Value::Int(2))], frozen: false };
    let c = d.values_for_descendant_check_and_freeze();
    assert_eq!(c.len(), 2);
    assert_eq!(c[0].to_str(), "k");
    assert_eq!(c[1].to_int().unwrap(), 2);
    assert!(Value::Bool(true).values_for_descendant_check_and_freeze().is_empty());
}

#[test]
fn bound_method_identity() {
    let f = NativeFunction::new("f".to_string(), vec![]);
    let id = f.function_id().unwrap();
    let bound = WrappedMethod::new(Value::Int(3), NativeFunction::new("f".to_string(), vec![]));
    let bid = bound.function_id().unwrap();
    assert!(matches!((&id.0, &bid.0), (FunctionType::Native(a), FunctionType::Native(b)) if a == b && a == "f"));
    assert!(Value::Int(1).function_id().is_none());
}

#[test]
fn bound_method_prepends_receiver() {
    let method = NativeFunction::new(
        "m".to_string(),
        vec![
            FunctionParameter::Normal("self".to_string()),
            FunctionParameter::Normal("x".to_string()),
        ],
    );
    let bound = WrappedMethod::new(s("me"), method);
    let r = bound.bind_call(vec![Value::Int(4)], LinkedHashMap::new(), None, None).unwrap();
    assert_eq!(r.len(), 2);
    assert!(matches!(&r[0], FunctionArg::Normal(Value::Str(x)) if x == "me"));
    assert!(matches!(&r[1], FunctionArg::Normal(Value::Int(4))));
    let e = Value::Int(1).bind_call(vec![], LinkedHashMap::new(), None, None).unwrap_err();
    assert!(matches!(e, ValueError::NotCallable(t) if t == "int"));
}

#[test]
fn argument_conversions() {
    let b: bool = FunctionArg::Normal(Value::Bool(true)).into_normal("flag").unwrap();
    assert!(b);
    match FunctionArg::Normal(Value::Int(1)).into_normal::<bool>("flag") {
        Err(ValueError::IncorrectParameterTypeNamed(n)) => assert_eq!(n, "flag"),
        other => panic!("unexpected {:?}", other),
    }
    assert!(matches!(
        FunctionArg::Optional(None).into_normal::<bool>("flag"),
        Err(ValueError::IncorrectParameterType)
    ));
    let o: Option<String> = FunctionArg::Optional(Some(s("x"))).into_optional("o").unwrap();
    assert_eq!(o, Some("x".to_string()));
    let none: Option<String> = FunctionArg::Optional(None).into_optional("o").unwrap();
    assert_eq!(none, None);
    assert!(matches!(
        FunctionArg::ArgsArray(vec![Value::Int(1), s("no")]).into_args_array::<i64>("args"),
        Err(ValueError::IncorrectParameterTypeNamed(_))
    ));
}

#[test]
fn argument_as_value() {
    assert!(matches!(FunctionArg::Optional(None).into_value(), Value::NoneType));
    let l = FunctionArg::ArgsArray(vec![Value::Int(1), Value::Int(2)]).into_value();
    assert_eq!(l.to_repr(), "[1, 2]");
    let mut m = LinkedHashMap::new();
    m.insert("a".to_string(), Value::Int(1));
    assert_eq!(FunctionArg::KWArgsDict(m).into_value().to_repr(), "{\"a\": 1}");
}

#[test]
fn string_ordering() {
    assert_eq!(s("abc").compare(&s("abd")).unwrap(), Ordering::Less);
    assert_eq!(s("ab").compare(&s("a")).unwrap(), Ordering::Greater);
    assert_eq!(s("").compare(&s("")).unwrap(), Ordering::Equal);
    assert_eq!(Value::Int(-3).compare(&Value::Int(2)).unwrap(), Ordering::Less);
}

#[test]
fn truthiness() {
    assert!(!Value::NoneType.to_bool());
    assert!(!Value::Int(0).to_bool());
    assert!(s("x").to_bool());
    assert!(!s("").to_bool());
    assert!(!Value::List { items: vec![], frozen: false }.to_bool());
}

#[test]
fn function_defaults_are_children_and_freeze() {
    let mut f = NativeFunction::new(
        "f".to_string(),
        vec![
            FunctionParameter::Normal("a".to_string()),
            FunctionParameter::WithDefaultValue(
                "xs".to_string(),
                Value::List { items: vec![Value::Int(1)], frozen: false },
            ),
            FunctionParameter::WithDefaultValue("flag".to_string(), Value::Bool(false)),
        ],
    );
    let before = f.values_for_descendant_check_and_freeze();
    assert_eq!(before.len(), 2);
    assert_eq!(before[0].to_repr(), "[1]");
    assert!(!before[0].is_frozen());
    assert_eq!(before[1].to_repr(), "False");
    f.freeze();
    let after = f.values_for_descendant_check_and_freeze();
    assert_eq!(after.len(), 2);
    assert!(after[0].is_frozen());
    let mut xs = after.into_iter().next().unwrap();
    assert!(matches!(xs.list_append(Value::Int(2)), Err(ValueError::CannotMutateFrozenValue)));
    assert_eq!(f.to_repr(), "<native function f>(a, xs = [1], flag = False)");
}
