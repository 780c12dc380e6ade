use datafusion_common::TableReference as ParsedReference;
use datafusion_table_providers_quack::table_reference::TableReference;

fn bare(table: &str) -> TableReference {
    TableReference::Bare {
        table: table.to_string(),
    }
}

fn partial(schema: &str, table: &str) -> TableReference {
    TableReference::Partial {
        schema: schema.to_string(),
        table: table.to_string(),
    }
}

fn full(catalog: &str, schema: &str, table: &str) -> TableReference {
    TableReference::Full {
        catalog: catalog.to_string(),
        schema: schema.to_string(),
        table: table.to_string(),
    }
}

#[test]
fn plain_parts_are_the_parts() {
    assert_eq!(TableReference::parse("users"), bare("users"));
    assert_eq!(TableReference::parse("main.users"), partial("main", "users"));
    assert_eq!(
        TableReference::parse("db.main.users"),
        full("db", "main", "users")
    );
    assert_eq!(TableReference::parse("_1.e9"), partial("_1", "e9"));
    assert_eq!(
        TableReference::parse("select.from.where"),
        full("select", "from", "where")
    );
    for letter in 'a'..='z' {
        let name = letter.to_string();
        assert_eq!(TableReference::parse(&name), bare(&name));
        assert_eq!(
            TableReference::parse(&format!("{name}.{name}0.{name}_")),
            full(&name, &format!("{name}0"), &format!("{name}_"))
        );
    }
}

#[test]
fn case_is_folded_outside_quotation_marks() {
    assert_eq!(TableReference::parse("Users"), bare("users"));
    assert_eq!(TableReference::parse("\"Users\""), bare("Users"));
    assert_eq!(TableReference::parse("\"a.b\".c"), partial("a.b", "c"));
}

#[test]
fn the_text_of_a_reference_has_no_quotation_marks() {
    assert_eq!(bare("a b").to_text(), "a b");
    assert_eq!(partial("a", "B").to_text(), "a.B");
    assert_eq!(full("a", "b", "c").to_text(), "a.b.c");
    for (ours, theirs) in [
        (bare("x.y"), ParsedReference::bare("x.y")),
        (partial("", "t"), ParsedReference::partial("", "t")),
        (full("c", "s", "t"), ParsedReference::full("c", "s", "t")),
    ] {
        assert_eq!(ours.to_text(), theirs.to_string());
    }
}

#[test]
fn awkward_parts_are_quoted() {
    assert_eq!(bare("users").to_quoted_text(), "users");
    assert_eq!(bare("Users").to_quoted_text(), "\"Users\"");
    assert_eq!(bare("a\"b").to_quoted_text(), "\"a\"\"b\"");
    assert_eq!(bare("1a").to_quoted_text(), "\"1a\"");
    assert_eq!(bare("a1_").to_quoted_text(), "a1_");
    assert_eq!(partial("main", "a b").to_quoted_text(), "main.\"a b\"");
    assert_eq!(full("c", "s.t", "u").to_quoted_text(), "c.\"s.t\".u");
    assert_eq!(bare("\u{e9}").to_quoted_text(), "\"\u{e9}\"");
    assert_eq!(bare("").to_quoted_text(), "");
}

#[test]
fn quoted_references_read_back() {
    for reference in [
        bare("users"),
        bare("Users; DROP TABLE users"),
        bare("a\"\"b"),
        partial("my schema", "x.y"),
        full("a", "B", "c\"."),
        full("1", "2", "3"),
        full("a", "_1", "_"),
        full("A b", "_", "q\"q"),
        partial("n", "nq"),
    ] {
        let text = reference.to_quoted_text();
        assert_eq!(TableReference::parse(&text), reference, "{text}");
    }
}

#[test]
fn every_character_reads_back() {
    for n in 0..=0x24ff_u32 {
        let c = char::from_u32(n).expect("a character");
        for name in [format!("{c}"), format!("a{c}"), format!("{c}{c}b")] {
            let reference = partial(&name, &name);
            let text = reference.to_quoted_text();
            assert_eq!(TableReference::parse(&text), reference, "{text}");
        }
    }
}

#[test]
fn different_references_are_written_differently() {
    let references = [
        bare("a.b"),
        partial("a", "b"),
        bare("\"a\".b"),
        bare("A"),
        bare("a"),
    ];
    for (i, a) in references.iter().enumerate() {
        for (j, b) in references.iter().enumerate() {
            assert_eq!(a.to_quoted_text() == b.to_quoted_text(), i == j);
        }
    }
}
