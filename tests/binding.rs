use linked_hash_map::LinkedHashMap;
use starlark::{
    FunctionArg, FunctionParameter, FunctionType, NativeFunction, ParameterParser, Value,
    ValueError,
};

fn p_normal(n: &str) -> FunctionParameter {
    FunctionParameter::Normal(n.to_string())
}

fn num(i: i64) -> Value {
    Value::Int(i)
}

fn s(x: &str) -> Value {
    Value::Str(x.to_string())
}

fn no_names() -> LinkedHashMap<String, Value> {
    LinkedHashMap::new()
}

fn native(name: &str, sig: Vec<FunctionParameter>) -> NativeFunction {
    match NativeFunction::new(name.to_string(), sig) {
        Value::Function(f) => f,
        _ => panic!("not a function"),
    }
}

fn normal_int(a: &FunctionArg) -> i64 {
    match a {
        FunctionArg::Normal(Value::Int(i)) => *i,
        other => panic!("unexpected {:?}", other),
    }
}

fn runtime_code(e: &ValueError) -> String {
    match e {
        ValueError::Runtime(r) => r.code.clone(),
        other => panic!("unexpected {:?}", other),
    }
}

fn runtime_message(e: &ValueError) -> String {
    match e {
        ValueError::Runtime(r) => r.message.clone(),
        other => panic!("unexpected {:?}", other),
    }
}

#[test]
fn no_arg() {
    let nop = NativeFunction::new("nop".to_string(), vec![]);
    let bound = nop.bind_call(vec![], no_names(), None, None).unwrap();
    assert!(bound.is_empty());
}

#[test]
fn required_parameters_bind_in_order() {
    let f = native(
        "f",
        vec![
            p_normal("a"),
            p_normal("b"),
            FunctionParameter::Optional("c".to_string()),
            FunctionParameter::WithDefaultValue("d".to_string(), Value::Bool(true)),
            FunctionParameter::ArgsArray("args".to_string()),
            FunctionParameter::KWArgsDict("kwargs".to_string()),
        ],
    );
    let r = f.bind_call(vec![num(1), num(2)], no_names(), None, None).unwrap();
    assert_eq!(r.len(), 6);
    assert_eq!(normal_int(&r[0]), 1);
    assert_eq!(normal_int(&r[1]), 2);
    assert!(matches!(r[2], FunctionArg::Optional(None)));
    assert!(matches!(r[3], FunctionArg::Normal(Value::Bool(true))));
    assert!(matches!(&r[4], FunctionArg::ArgsArray(v) if v.is_empty()));
    assert!(matches!(&r[5], FunctionArg::KWArgsDict(m) if m.is_empty()));
}

#[test]
fn named_overrides_missing_positional() {
    let f = native("f", vec![p_normal("a"), p_normal("b")]);
    let mut named = no_names();
    named.insert("b".to_string(), num(2));
    let r = f.bind_call(vec![num(1)], named, None, None).unwrap();
    assert_eq!(normal_int(&r[0]), 1);
    assert_eq!(normal_int(&r[1]), 2);
}

#[test]
fn default_fallback() {
    let sig = vec![
        p_normal("a"),
        FunctionParameter::WithDefaultValue("b".to_string(), num(10)),
    ];
    let f = native("f", sig);
    let r = f.bind_call(vec![num(5)], no_names(), None, None).unwrap();
    assert_eq!(normal_int(&r[0]), 5);
    assert_eq!(normal_int(&r[1]), 10);
    let r = f.bind_call(vec![num(5), num(7)], no_names(), None, None).unwrap();
    assert_eq!(normal_int(&r[0]), 5);
    assert_eq!(normal_int(&r[1]), 7);
}

#[test]
fn variadic_positional_collection() {
    let f = native("f", vec![FunctionParameter::ArgsArray("args".to_string())]);
    let r = f.bind_call(vec![num(1), num(2), num(3)], no_names(), None, None).unwrap();
    assert_eq!(r.len(), 1);
    let got: Vec<i64> = r.into_iter().next().unwrap().into_args_array::<i64>("args").unwrap();
    assert_eq!(got, vec![1, 2, 3]);
}

#[test]
fn variadic_keyword_collection_keeps_order() {
    let f = native("f", vec![FunctionParameter::KWArgsDict("kwargs".to_string())]);
    let mut named = no_names();
    named.insert("x".to_string(), num(1));
    named.insert("y".to_string(), num(2));
    let r = f.bind_call(vec![], named, None, None).unwrap();
    match &r[0] {
        FunctionArg::KWArgsDict(m) => {
            let keys: Vec<&String> = m.keys().collect();
            assert_eq!(keys, vec!["x", "y"]);
        }
        other => panic!("unexpected {:?}", other),
    }
    let kw = r.into_iter().next().unwrap().into_kw_args_dict::<i64>("kwargs").unwrap();
    assert_eq!(kw, vec![("x".to_string(), 1), ("y".to_string(), 2)]);
}

#[test]
fn extra_parameter_rejection() {
    let f = native("f", vec![]);
    let e = f.bind_call(vec![num(1)], no_names(), None, None).unwrap_err();
    assert_eq!(runtime_code(&e), "CF05");
    let mut named = no_names();
    named.insert("z".to_string(), num(1));
    let e = f.bind_call(vec![], named, None, None).unwrap_err();
    assert_eq!(runtime_code(&e), "CF05");
}

#[test]
fn missing_required_rejection() {
    let f = native("f", vec![p_normal("a")]);
    let e = f.bind_call(vec![], no_names(), None, None).unwrap_err();
    assert_eq!(runtime_code(&e), "CF00");
    assert_eq!(
        runtime_message(&e),
        "Missing parameter a for call to <native function f>(a)"
    );
}

#[test]
fn missing_unnamed_parameter_drops_marker() {
    let f = native("g", vec![p_normal("$x"), FunctionParameter::Optional("y".to_string())]);
    let e = f.bind_call(vec![], no_names(), None, None).unwrap_err();
    assert_eq!(
        runtime_message(&e),
        "Missing parameter x for call to <native function g>($x, ?y)"
    );
}

#[test]
fn args_value_is_expanded() {
    let f = native("f", vec![p_normal("a"), FunctionParameter::ArgsArray("rest".to_string())]);
    let list = Value::List { items: vec![num(2), num(3)], frozen: false };
    let r = f.bind_call(vec![num(1)], no_names(), Some(list), None).unwrap();
    assert_eq!(normal_int(&r[0]), 1);
    let rest: Vec<i64> = match &r[1] {
        FunctionArg::ArgsArray(v) => v.iter().map(|x| x.to_int().unwrap()).collect(),
        other => panic!("unexpected {:?}", other),
    };
    assert_eq!(rest, vec![2, 3]);
}

#[test]
fn args_dict_yields_keys() {
    let f = native("f", vec![FunctionParameter::ArgsArray("rest".to_string())]);
    let d = Value::Dict { entries: vec![(s("k"), num(9))], frozen: false };
    let r = f.bind_call(vec![], no_names(), Some(d), None).unwrap();
    match &r[0] {
        FunctionArg::ArgsArray(v) => assert_eq!(v[0].to_str(), "k"),
        other => panic!("unexpected {:?}", other),
    }
}

#[test]
fn args_not_iterable() {
    let f = native("f", vec![]);
    let e = f.bind_call(vec![], no_names(), Some(num(3)), None).unwrap_err();
    assert_eq!(runtime_code(&e), "CF02");
}

#[test]
fn kwargs_value_is_merged() {
    let f = native("f", vec![p_normal("a"), p_normal("b")]);
    let d = Value::Dict { entries: vec![(s("b"), num(4)), (s("a"), num(3))], frozen: false };
    let r = f.bind_call(vec![], no_names(), None, Some(d)).unwrap();
    assert_eq!(normal_int(&r[0]), 3);
    assert_eq!(normal_int(&r[1]), 4);
}

#[test]
fn kwargs_not_mappable() {
    let f = native("f", vec![]);
    let e = f.bind_call(vec![], no_names(), None, Some(Value::Bool(true))).unwrap_err();
    assert_eq!(runtime_code(&e), "CF03");
    let list = Value::List { items: vec![s("a")], frozen: false };
    let e = f.bind_call(vec![], no_names(), None, Some(list)).unwrap_err();
    assert_eq!(runtime_code(&e), "CF03");
}

#[test]
fn kwargs_key_not_string() {
    let f = native("f", vec![]);
    let d = Value::Dict { entries: vec![(num(1), num(2))], frozen: false };
    let e = f.bind_call(vec![], no_names(), None, Some(d)).unwrap_err();
    assert_eq!(runtime_code(&e), "CF01");
}

#[test]
fn kwargs_duplicate_name() {
    let f = native("f", vec![p_normal("a")]);
    let mut named = no_names();
    named.insert("a".to_string(), num(1));
    let d = Value::Dict { entries: vec![(s("a"), num(2))], frozen: false };
    let e = f.bind_call(vec![], named, None, Some(d)).unwrap_err();
    assert_eq!(runtime_code(&e), "CF06");
    assert_eq!(runtime_message(&e), "Parameter a is given more than once");
}

#[test]
fn parser_step_by_step() {
    let sig = vec![p_normal("a"), FunctionParameter::Optional("b".to_string())];
    let ft = FunctionType::Native("f".to_string());
    let mut named = no_names();
    named.insert("b".to_string(), s("bee"));
    let mut p = ParameterParser::new(&sig, &ft, vec![num(1)], named, None, None).unwrap();
    assert_eq!(p.next_normal("a").unwrap().to_int().unwrap(), 1);
    assert_eq!(p.next_optional("b").unwrap().to_str(), "bee");
    assert!(p.check_no_more_args().is_ok());
}

#[test]
fn parser_default_and_drains() {
    let sig = vec![
        FunctionParameter::WithDefaultValue("d".to_string(), num(8)),
        FunctionParameter::ArgsArray("rest".to_string()),
        FunctionParameter::KWArgsDict("kw".to_string()),
    ];
    let ft = FunctionType::Native("f".to_string());
    let mut named = no_names();
    named.insert("q".to_string(), num(5));
    let mut p = ParameterParser::new(&sig, &ft, vec![], named, None, None).unwrap();
    let d = p.next_with_default_value("d", &num(8));
    assert_eq!(d.to_int().unwrap(), 8);
    assert!(p.next_args_array().is_empty());
    let kw = p.next_kwargs_dict();
    assert_eq!(kw.len(), 1);
    assert_eq!(kw.get("q").unwrap().to_int().unwrap(), 5);
    assert!(p.check_no_more_args().is_ok());
}

#[test]
fn parser_next_arg_reports_missing() {
    let sig = vec![p_normal("a")];
    let ft = FunctionType::Def("h".to_string(), "mod".to_string());
    let mut p = ParameterParser::new(&sig, &ft, vec![], no_names(), None, None).unwrap();
    let e = p.next_arg().unwrap_err();
    assert_eq!(
        runtime_message(&e),
        "Missing parameter a for call to <function h from mod>(a)"
    );
}

#[test]
fn function_error_rendering() {
    let r = starlark::FunctionError::ArgsValueIsNotString.into_runtime_error();
    assert_eq!(r.code, "CF01");
    assert_eq!(r.label, "not an identifier for *args");
    assert_eq!(r.message, "The argument provided for *args is not an identifier");
    let r = starlark::FunctionError::ExtraParameter.into_runtime_error();
    assert_eq!(r.label, "Extraneous parameter in function call");
}
