use wind::Param;

/* test param string splitting */
#[test]
fn should_split() {
    let param_str = "name=simon";
    let param = Param::new(param_str);

    assert_eq!(param.unwrap(), Param { key: String::from("name"), value: String::from("simon") });
}

#[test]
fn should_split_fragment() {
    let param_str = "name=simon#bottom";
    let key = String::from("name");
    let value = String::from("simon");

    let param = Param::new(param_str);
    assert_eq!(param.unwrap(), Param { key, value });
}

#[test]
fn extra_equals_param() {
    let param_str = "name=simonage=21";
    let param = Param::new(param_str);

    assert_eq!(param, None);
}

#[test]
fn no_equals_param() {
    let param_str = "name";
    let param = Param::new(param_str);

    assert_eq!(param, None);
}

#[test]
fn empty_key_and_value_are_kept() {
    assert_eq!(Param::new("=b"), Some(Param { key: String::new(), value: String::from("b") }));
    assert_eq!(Param::new("a="), Some(Param { key: String::from("a"), value: String::new() }));
    assert_eq!(Param::new("="), Some(Param { key: String::new(), value: String::new() }));
}

#[test]
fn empty_and_fragment_only_give_none() {
    assert_eq!(Param::new(""), None);
    assert_eq!(Param::new("#a=b"), None);
    assert_eq!(Param::new("a=b=c#x"), None);
}

#[test]
fn equals_after_fragment_is_ignored() {
    assert_eq!(
        Param::new("k=v#x=y=z"),
        Some(Param { key: String::from("k"), value: String::from("v") })
    );
}

#[test]
fn non_ascii_param() {
    assert_eq!(
        Param::new("clé=été"),
        Some(Param { key: String::from("clé"), value: String::from("été") })
    );
}
