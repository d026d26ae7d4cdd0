use faulx::{list_all, resolve};

#[test]
fn test_resolve_case_insensitive() {
    let lower = resolve("term").expect("lowercase name resolves");
    let upper = resolve("TERM").expect("uppercase name resolves");
    let mixed = resolve("Term").expect("mixed-case name resolves");
    assert_eq!(lower.name, "TERM");
    assert_eq!(upper.name, "TERM");
    assert_eq!(mixed.name, "TERM");
    assert_eq!(lower.value, 15);
    assert_eq!(upper.value, 15);
    assert_eq!(mixed.value, 15);
}

#[test]
fn test_resolve_unknown_name() {
    assert!(resolve("notasignal").is_none());
    assert!(resolve("").is_none());
    assert!(resolve("TERM ").is_none());
}

#[test]
fn test_resolve_standard_values() {
    assert_eq!(resolve("hup").unwrap().value, 1);
    assert_eq!(resolve("int").unwrap().value, 2);
    assert_eq!(resolve("kill").unwrap().value, 9);
    assert_eq!(resolve("usr1").unwrap().value, 10);
    assert_eq!(resolve("segv").unwrap().value, 11);
    assert_eq!(resolve("stop").unwrap().value, 19);
    assert_eq!(resolve("winch").unwrap().value, 28);
    assert_eq!(resolve("sys").unwrap().value, 31);
}

#[test]
fn test_list_all_deterministic() {
    let first = list_all();
    let second = list_all();
    assert_eq!(first, second);
}

#[test]
fn test_list_all_order_and_no_duplicates() {
    let names = list_all();
    assert_eq!(names.len(), 31);
    assert_eq!(names[0], "HUP");
    assert_eq!(names[14], "TERM");
    assert_eq!(names[30], "SYS");
    for i in 0..names.len() {
        for j in 0..names.len() {
            if i != j {
                assert_ne!(names[i], names[j]);
            }
        }
    }
}

#[test]
fn test_every_listed_name_resolves() {
    for name in list_all() {
        let d = resolve(name).expect("listed name resolves");
        assert_eq!(d.name, name);
    }
}
