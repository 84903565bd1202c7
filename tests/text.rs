use safir::display::{command_line, confirms, environment_lines, is_acceptance, kv_line};
use safir::flat_store::Store;
use safir::sql::{clear_query, delete_query, list_query, quote, quote_keys, select_query};

fn s(x: &str) -> String {
    x.to_string()
}

#[test]
fn pairs_print_as_shell_assignments() {
    assert_eq!(kv_line(&s("key"), &s("value")), "key=\"value\"");
    assert_eq!(command_line("alias", &s("ll"), &s("ls -l")), "alias ll=\"ls -l\"");
    assert_eq!(command_line("export", &s("A"), &s("")), "export A=\"\"");
}

#[test]
fn environment_listing_marks_the_current_one() {
    let lines = environment_lines(&vec![s("default"), s("work")], &s("work"));
    assert_eq!(lines, vec![s("- default"), s("- work <- Currently loaded")]);
    assert_eq!(environment_lines(&vec![], &s("work")), Vec::<String>::new());
}

#[test]
fn confirmation_accepts_y_and_yes_only() {
    assert!(confirms("y\n"));
    assert!(confirms("  YES \n"));
    assert!(confirms("Y"));
    assert!(!confirms("n\n"));
    assert!(!confirms("yeah"));
    assert!(!confirms(""));
    assert!(is_acceptance("yes"));
    assert!(!is_acceptance("YES"));
    assert!(!is_acceptance(" y"));
}

#[test]
fn queries_are_scoped_to_the_environment() {
    let keys = vec![s("a"), s("b")];
    assert_eq!(
        select_query(&s("default"), &keys),
        "select * from safir where environment = 'default' and key in ('a', 'b')"
    );
    assert_eq!(
        delete_query(&s("work"), &vec![s("k")]),
        "delete from safir where environment = 'work' and key in ('k')"
    );
    assert_eq!(list_query(&s("w")), "select * from safir where environment = 'w'");
    assert_eq!(clear_query(&s("w")), "delete from safir where environment = 'w'");
    assert_eq!(quote_keys(&vec![]), "");
    assert_eq!(quote_keys(&vec![s("x"), s("y"), s("z")]), "'x', 'y', 'z'");
}

fn flat() -> Store {
    Store { path: s("/tmp/ws"), file: s("/tmp/ws/safirstore.json"), store: vec![] }
}

#[test]
fn flat_store_add_get_list() {
    let mut st = flat();
    st.add(s("a"), s("1"));
    st.add(s("b"), s("2"));
    st.add(s("a"), s("3"));
    assert_eq!(st.get(vec![s("a"), s("q")]), vec![(s("a"), s("3"))]);
    assert_eq!(st.list(), vec![(s("a"), s("3")), (s("b"), s("2"))]);
    assert_eq!(st.path, "/tmp/ws");
}

#[test]
fn flat_store_remove_and_clear() {
    let mut st = flat();
    st.add(s("a"), s("1"));
    st.add(s("b"), s("2"));
    st.remove(vec![s("a"), s("zz")]);
    assert_eq!(st.list(), vec![(s("b"), s("2"))]);
    st.clear();
    assert_eq!(st.list(), vec![]);
}

#[test]
fn flat_store_custom_display_prefixes_each_line() {
    let mut st = flat();
    st.add(s("ll"), s("ls -l"));
    st.add(s("p"), s("pwd"));
    assert_eq!(
        st.custom_display("alias", vec![s("p"), s("none"), s("ll")]),
        vec![s("alias p=\"pwd\""), s("alias ll=\"ls -l\"")]
    );
}

#[test]
fn quotes_inside_keys_are_doubled() {
    assert_eq!(quote("don't"), "'don''t'");
    assert_eq!(quote(""), "''");
    assert_eq!(quote("'"), "''''");
    assert_eq!(quote("héllo"), "'héllo'");
    assert_eq!(
        select_query(&s("default"), &vec![s("don't")]),
        "select * from safir where environment = 'default' and key in ('don''t')"
    );
}

#[test]
fn crafted_keys_stay_inside_their_literal() {
    assert_eq!(
        select_query(&s("default"), &vec![s("') or ('a'='a")]),
        "select * from safir where environment = 'default' and key in (''') or (''a''=''a')"
    );
    assert_eq!(
        delete_query(&s("e"), &vec![s("x'); drop table safir; --")]),
        "delete from safir where environment = 'e' and key in ('x''); drop table safir; --')"
    );
}

#[test]
fn quotes_inside_environment_names_are_doubled() {
    assert_eq!(
        clear_query(&s("o'brien")),
        "delete from safir where environment = 'o''brien'"
    );
    assert_eq!(
        list_query(&s("' or '1'='1")),
        "select * from safir where environment = ''' or ''1''=''1'"
    );
}
