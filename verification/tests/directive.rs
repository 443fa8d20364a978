use kconfig::directive::flag_directives;
use kconfig::Directive;

fn names(list: &[&str]) -> Vec<String> {
    list.iter().map(|name| name.to_string()).collect()
}

#[test]
fn flag_directives_keep_the_order() {
    assert_eq!(
        flag_directives(names(&["b", "a", "b"])),
        vec![
            Directive::Flag("b".to_string()),
            Directive::Flag("a".to_string()),
            Directive::Flag("b".to_string()),
        ]
    );
    assert_eq!(flag_directives(vec![]), vec![]);
}

#[test]
fn a_cloned_directive_is_equal() {
    let publish = Directive::Metadata { key: "K".to_string(), value: "v".to_string() };
    assert_eq!(publish.clone(), publish);
    let flag = Directive::Flag("f".to_string());
    assert_eq!(flag.clone(), flag);
    assert_ne!(flag, publish);
}
