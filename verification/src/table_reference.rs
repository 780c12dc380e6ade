//! Names of tables, with the schema and the catalog that may qualify them.

use crate::text::is_digit;
#[allow(unused_imports)]
use crate::text::{doubled, law_doubled_text_reads_back, read_quoted};
use datafusion_common::TableReference as ParsedReference;
use vstd::prelude::*;

verus! {

/// A table, alone or qualified.
#[derive(Debug, PartialEq, Eq)]
pub enum TableReference {
    /// An unqualified table, such as `table`.
    Bare { table: String },
    /// A table in a schema, such as `schema.table`.
    Partial { schema: String, table: String },
    /// A table in a schema of a catalog, such as `catalog.schema.table`.
    Full { catalog: String, schema: String, table: String },
}

impl View for TableReference {
    type V = Seq<Seq<char>>;

    /// The parts of the reference, from the outermost to the table's own name.
    open spec fn view(&self) -> Seq<Seq<char>> {
        match self {
            TableReference::Bare { table } => seq![table@],
            TableReference::Partial { schema, table } => seq![schema@, table@],
            TableReference::Full { catalog, schema, table } => seq![catalog@, schema@, table@],
        }
    }
}

/// The parts with a period between each two.
pub open spec fn dotted(parts: Seq<Seq<char>>) -> Seq<char>
    decreases parts.len(),
{
    if parts.len() == 0 {
        Seq::empty()
    } else if parts.len() == 1 {
        parts[0]
    } else {
        dotted(parts.drop_last()).push('.') + parts.last()
    }
}

/// Whether `c` can stand in an identifier without quotation marks: a lower-case
/// ASCII letter, a digit or an underscore.
pub open spec fn is_plain(c: char) -> bool {
    'a' <= c <= 'z' || is_digit(c) || c == '_'
}

/// Whether an identifier can stand in a statement without quotation marks: plain
/// characters, and no digit first.
pub open spec fn is_plain_identifier(s: Seq<char>) -> bool {
    &&& forall|i: int| 0 <= i < s.len() ==> is_plain(#[trigger] s[i])
    &&& s.len() > 0 ==> !is_digit(s[0])
}

/// Whether the parts are those of a reference, and each is a plain identifier.
pub open spec fn is_plain_reference(parts: Seq<Seq<char>>) -> bool {
    &&& 1 <= parts.len() <= 3
    &&& forall|i: int|
        0 <= i < parts.len() ==> (#[trigger] parts[i]).len() > 0 && is_plain_identifier(parts[i])
}

/// Whether the parts are those of a reference, and none is empty.
pub open spec fn is_full_reference(parts: Seq<Seq<char>>) -> bool {
    &&& 1 <= parts.len() <= 3
    &&& forall|i: int| 0 <= i < parts.len() ==> (#[trigger] parts[i]).len() > 0
}

/// An identifier as it stands in a statement: as it is where it is plain, else
/// between double quotation marks, with those in it doubled.
pub open spec fn quoted_identifier(s: Seq<char>) -> Seq<char> {
    if is_plain_identifier(s) {
        s
    } else {
        seq!['"'] + doubled(s, '"').push('"')
    }
}

/// The parts, each as it stands in a statement, with periods between them.
pub open spec fn quoted_reference(parts: Seq<Seq<char>>) -> Seq<char> {
    dotted(parts.map_values(|part: Seq<char>| quoted_identifier(part)))
}

/// The parts of the reference that a text is read as: what
/// `datafusion_common::TableReference::from` makes of it.
pub uninterp spec fn parsed_reference(s: Seq<char>) -> Seq<Seq<char>>;

/// Reads a text as a reference: `datafusion_common::TableReference::from`.
///
/// The contract names the parts of the result, and says that a reference as it
/// stands in a statement is read as the parts that it was written from: plain
/// identifiers as they are, others between double quotation marks, with those in
/// them doubled, and periods between the parts. What other texts are read as
/// (upper case outside quotation marks, more than three parts, empty parts) is
/// not stated beyond the name.
#[verifier::external_body]
fn parse_reference(s: &str) -> (reference: TableReference)
    ensures
        reference@ == parsed_reference(s@),
        forall|parts: Seq<Seq<char>>|
            is_full_reference(parts) && s@ == #[trigger] quoted_reference(parts) ==> reference@
                == parts,
{
    match ParsedReference::from(s) {
        ParsedReference::Bare { table } => TableReference::Bare { table: table.to_string() },
        ParsedReference::Partial { schema, table } => {
            TableReference::Partial { schema: schema.to_string(), table: table.to_string() }
        },
        ParsedReference::Full { catalog, schema, table } => TableReference::Full {
            catalog: catalog.to_string(),
            schema: schema.to_string(),
            table: table.to_string(),
        },
    }
}

/// Writes a reference for a statement:
/// `datafusion_common::TableReference::to_quoted_string`.
///
/// The contract says that each part is left as it is where it is a plain
/// identifier and quoted where it is not, and that periods join the parts.
#[verifier::external_body]
fn quote_reference(reference: &TableReference) -> (text: String)
    ensures
        text@ == quoted_reference(reference@),
{
    match reference {
        TableReference::Bare { table } => ParsedReference::bare(table.as_str()),
        TableReference::Partial { schema, table } => {
            ParsedReference::partial(schema.as_str(), table.as_str())
        },
        TableReference::Full { catalog, schema, table } => {
            ParsedReference::full(catalog.as_str(), schema.as_str(), table.as_str())
        },
    }.to_quoted_string()
}

impl TableReference {
    /// Reads `s` as a multipart identifier.
    ///
    /// A reference as it stands in a statement is read as the parts that it was
    /// written from.
    pub fn parse(s: &str) -> (reference: Self)
        ensures
            reference@ == parsed_reference(s@),
            forall|parts: Seq<Seq<char>>|
                is_full_reference(parts) && s@ == #[trigger] quoted_reference(parts)
                    ==> reference@ == parts,
    {
        parse_reference(s)
    }

    /// The parts with a period between each two, without quotation marks.
    pub fn to_text(&self) -> (text: String)
        ensures
            text@ == dotted(self@),
    {
        reveal_with_fuel(dotted, 4);
        match self {
            TableReference::Bare { table } => table.clone(),
            TableReference::Partial { schema, table } => {
                let mut text = schema.clone();
                text.push('.');
                text.append(table.as_str());
                assert(self@.drop_last() == seq![schema@]);
                text
            },
            TableReference::Full { catalog, schema, table } => {
                let mut text = catalog.clone();
                text.push('.');
                text.append(schema.as_str());
                text.push('.');
                text.append(table.as_str());
                assert(self@.drop_last() == seq![catalog@, schema@]);
                assert(seq![catalog@, schema@].drop_last() == seq![catalog@]);
                text
            },
        }
    }

    /// The parts, each as it stands in a statement, with periods between them.
    pub fn to_quoted_text(&self) -> (text: String)
        ensures
            text@ == quoted_reference(self@),
    {
        quote_reference(self)
    }
}

impl Clone for TableReference {
    /// The same reference.
    fn clone(&self) -> (copy: Self)
        ensures
            copy@ == self@,
    {
        match self {
            TableReference::Bare { table } => TableReference::Bare { table: table.clone() },
            TableReference::Partial { schema, table } => {
                TableReference::Partial { schema: schema.clone(), table: table.clone() }
            },
            TableReference::Full { catalog, schema, table } => TableReference::Full {
                catalog: catalog.clone(),
                schema: schema.clone(),
                table: table.clone(),
            },
        }
    }
}

/// Plain identifiers stand in a statement as they are.
pub proof fn law_plain_reference_needs_no_quotation_marks(parts: Seq<Seq<char>>)
    requires
        is_plain_reference(parts),
    ensures
        is_full_reference(parts),
        quoted_reference(parts) == dotted(parts),
{
    assert(parts.map_values(|part: Seq<char>| quoted_identifier(part)) =~= parts);
}

/// A reference as it stands in a statement does not begin with white space.
pub proof fn lemma_quoted_reference_is_visible(parts: Seq<Seq<char>>)
    requires
        is_full_reference(parts),
    ensures
        quoted_reference(parts).len() > 0,
        quoted_reference(parts)[0] == '"' || is_plain(quoted_reference(parts)[0]),
{
    let quoted = parts.map_values(|part: Seq<char>| quoted_identifier(part));
    let first = quoted_identifier(parts[0]);
    assert(first.len() > 0 && (first[0] == '"' || is_plain(first[0])));
    assert(quoted[0] == first);
    if parts.len() > 1 {
        lemma_dotted_from_the_front(quoted);
    }
}

/// The plain characters that a text begins with, and what follows them.
pub open spec fn read_plain(text: Seq<char>) -> (Seq<char>, Seq<char>)
    decreases text.len(),
{
    if text.len() > 0 && is_plain(text[0]) {
        let (more, rest) = read_plain(text.drop_first());
        (seq![text[0]] + more, rest)
    } else {
        (Seq::empty(), text)
    }
}

/// The identifier that a text begins with, between quotation marks or not, and
/// what follows it.
pub open spec fn read_identifier(text: Seq<char>) -> Option<(Seq<char>, Seq<char>)> {
    if text.len() > 0 && text[0] == '"' {
        read_quoted(text.drop_first(), '"')
    } else {
        Some(read_plain(text))
    }
}

/// The identifiers, with periods between them, that a text begins with, and what
/// follows them.
pub open spec fn read_reference(text: Seq<char>) -> Option<(Seq<Seq<char>>, Seq<char>)>
    decreases text.len(),
{
    proof {
        lemma_reading_leaves_no_more(text);
    }
    match read_identifier(text) {
        None => None,
        Some((first, rest)) => if rest.len() > 0 && rest[0] == '.' {
            match read_reference(rest.drop_first()) {
                None => None,
                Some((others, rest)) => Some((seq![first] + others, rest)),
            }
        } else {
            Some((seq![first], rest))
        },
    }
}

/// Reading an identifier leaves no more text than there was.
pub proof fn lemma_reading_leaves_no_more(text: Seq<char>)
    ensures
        read_identifier(text) matches Some((_, rest)) ==> rest.len() <= text.len(),
{
    lemma_plain_leaves_no_more(text);
    if text.len() > 0 {
        lemma_quoted_leaves_no_more(text.drop_first());
    }
}

proof fn lemma_plain_leaves_no_more(text: Seq<char>)
    ensures
        read_plain(text).1.len() <= text.len(),
    decreases text.len(),
{
    if text.len() > 0 {
        lemma_plain_leaves_no_more(text.drop_first());
    }
}

proof fn lemma_quoted_leaves_no_more(text: Seq<char>)
    ensures
        read_quoted(text, '"') matches Some((_, rest)) ==> rest.len() <= text.len(),
    decreases text.len(),
{
    if text.len() > 0 {
        lemma_quoted_leaves_no_more(text.drop_first());
        if text.len() > 1 {
            lemma_quoted_leaves_no_more(text.skip(2));
        }
    }
}

/// Whether a text cannot be taken for the rest of an identifier before it.
pub open spec fn ends_identifier(rest: Seq<char>) -> bool {
    rest.len() > 0 ==> rest[0] != '"' && !is_plain(rest[0])
}

/// An identifier as it stands in a statement reads back as that identifier.
pub proof fn law_identifier_reads_back(s: Seq<char>, rest: Seq<char>)
    requires
        ends_identifier(rest),
    ensures
        read_identifier(quoted_identifier(s) + rest) == Some((s, rest)),
{
    let text = quoted_identifier(s) + rest;
    if is_plain_identifier(s) {
        lemma_plain_reads_back(s, rest);
        if s.len() == 0 {
            assert(text == rest);
        }
    } else {
        law_doubled_text_reads_back(s, '"', rest);
        assert(text.drop_first() == doubled(s, '"').push('"') + rest);
    }
}

proof fn lemma_plain_reads_back(s: Seq<char>, rest: Seq<char>)
    requires
        forall|i: int| 0 <= i < s.len() ==> is_plain(#[trigger] s[i]),
        ends_identifier(rest),
    ensures
        read_plain(s + rest) == (s, rest),
    decreases s.len(),
{
    if s.len() == 0 {
        assert(s + rest == rest);
        assert(s == Seq::<char>::empty());
    } else {
        lemma_plain_reads_back(s.drop_first(), rest);
        assert((s + rest).drop_first() == s.drop_first() + rest);
        assert(seq![s[0]] + s.drop_first() == s);
    }
}

/// How the first of several parts stands before the others.
proof fn lemma_dotted_from_the_front(parts: Seq<Seq<char>>)
    requires
        parts.len() > 1,
    ensures
        dotted(parts) == parts[0].push('.') + dotted(parts.drop_first()),
    decreases parts.len(),
{
    reveal_with_fuel(dotted, 2);
    if parts.len() == 2 {
        assert(parts.drop_last() == seq![parts[0]]);
        assert(parts.drop_first() == seq![parts[1]]);
    } else {
        lemma_dotted_from_the_front(parts.drop_last());
        assert(parts.drop_last().drop_first() == parts.drop_first().drop_last());
        assert(parts.drop_first().last() == parts.last());
        let inner = dotted(parts.drop_first().drop_last());
        assert((parts[0].push('.') + inner).push('.') + parts.last() == parts[0].push('.') + (
        inner.push('.') + parts.last()));
    }
}

/// A reference as it stands in a statement reads back as the parts that it was
/// written from, whatever characters they hold.
pub proof fn law_reference_reads_back(parts: Seq<Seq<char>>, rest: Seq<char>)
    requires
        parts.len() > 0,
        ends_identifier(rest),
        rest.len() > 0 ==> rest[0] != '.',
    ensures
        read_reference(quoted_reference(parts) + rest) == Some((parts, rest)),
    decreases parts.len(),
{
    let quoted = parts.map_values(|part: Seq<char>| quoted_identifier(part));
    let text = quoted_reference(parts) + rest;
    if parts.len() == 1 {
        law_identifier_reads_back(parts[0], rest);
        assert(text == quoted_identifier(parts[0]) + rest);
        assert(seq![parts[0]] == parts);
    } else {
        let others = parts.drop_first();
        lemma_dotted_from_the_front(quoted);
        assert(quoted.drop_first() == others.map_values(
            |part: Seq<char>| quoted_identifier(part),
        ));
        let tail = seq!['.'] + (quoted_reference(others) + rest);
        law_identifier_reads_back(parts[0], tail);
        assert(text == quoted_identifier(parts[0]) + tail);
        assert(tail.drop_first() == quoted_reference(others) + rest);
        law_reference_reads_back(others, rest);
        assert(seq![parts[0]] + others == parts);
    }
}

/// Different references are written differently.
pub proof fn law_quoted_references_are_distinct(a: Seq<Seq<char>>, b: Seq<Seq<char>>)
    requires
        a.len() > 0,
        b.len() > 0,
        quoted_reference(a) == quoted_reference(b),
    ensures
        a == b,
{
    let nothing = Seq::<char>::empty();
    law_reference_reads_back(a, nothing);
    law_reference_reads_back(b, nothing);
}

/// A reference shows the parts that it holds, from the outermost to the table's own
/// name, and its text is those parts with a period between each two.
pub proof fn law_text_joins_the_parts(catalog: String, schema: String, table: String)
    ensures
        (TableReference::Bare { table })@ == seq![table@],
        (TableReference::Partial { schema, table })@ == seq![schema@, table@],
        (TableReference::Full { catalog, schema, table })@ == seq![catalog@, schema@, table@],
        dotted(seq![table@]) == table@,
        dotted(seq![schema@, table@]) == schema@ + seq!['.'] + table@,
        dotted(seq![catalog@, schema@, table@]) == catalog@ + seq!['.'] + schema@ + seq!['.']
            + table@,
{
    reveal_with_fuel(dotted, 4);
    assert(seq![schema@, table@].drop_last() == seq![schema@]);
    assert(seq![catalog@, schema@, table@].drop_last() == seq![catalog@, schema@]);
    assert(seq![catalog@, schema@].drop_last() == seq![catalog@]);
}

/// An identifier stands as it is where it is made of lower-case ASCII letters,
/// digits and underscores and does not begin with a digit; every other one stands
/// between double quotation marks, with those in it doubled.
pub proof fn law_identifier_is_quoted_where_it_must_be(s: Seq<char>)
    ensures
        ({
            let plain = (forall|i: int|
                0 <= i < s.len() ==> (97 <= #[trigger] s[i] as int <= 122 || 48 <= s[i] as int <= 57
                    || s[i] == '_')) && (s.len() > 0 ==> !(48 <= s[0] as int <= 57));
            &&& plain ==> quoted_identifier(s) == s
            &&& !plain ==> quoted_identifier(s) == seq!['"'] + doubled(s, '"') + seq!['"']
        }),
{
    let plain = (forall|i: int|
        0 <= i < s.len() ==> (97 <= #[trigger] s[i] as int <= 122 || 48 <= s[i] as int <= 57 || s[i]
            == '_')) && (s.len() > 0 ==> !(48 <= s[0] as int <= 57));
    if plain {
        assert forall|i: int| 0 <= i < s.len() implies is_plain(#[trigger] s[i]) by {}
    } else if is_plain_identifier(s) {
        assert forall|i: int| 0 <= i < s.len() implies (97 <= #[trigger] s[i] as int <= 122 || 48
            <= s[i] as int <= 57 || s[i] == '_') by {
            assert(is_plain(s[i]));
        }
    }
    assert(seq!['"'] + doubled(s, '"').push('"') == seq!['"'] + doubled(s, '"') + seq!['"']);
}

/// In a statement, the parts of a reference stand each as its identifier does, with
/// a period between each two.
pub proof fn law_reference_is_written_part_by_part(
    catalog: Seq<char>,
    schema: Seq<char>,
    table: Seq<char>,
)
    ensures
        quoted_reference(seq![table]) == quoted_identifier(table),
        quoted_reference(seq![schema, table]) == quoted_identifier(schema) + seq!['.']
            + quoted_identifier(table),
        quoted_reference(seq![catalog, schema, table]) == quoted_identifier(catalog) + seq!['.']
            + quoted_identifier(schema) + seq!['.'] + quoted_identifier(table),
{
    reveal_with_fuel(dotted, 4);
    let (c, s, t) = (
        quoted_identifier(catalog),
        quoted_identifier(schema),
        quoted_identifier(table),
    );
    let quote = |part: Seq<char>| quoted_identifier(part);
    assert(seq![table].map_values(quote) == seq![t]);
    assert(seq![schema, table].map_values(quote) == seq![s, t]);
    assert(seq![catalog, schema, table].map_values(quote) == seq![c, s, t]);
    assert(seq![s, t].drop_last() == seq![s]);
    assert(seq![c, s, t].drop_last() == seq![c, s]);
    assert(seq![c, s].drop_last() == seq![c]);
}

} // verus!
