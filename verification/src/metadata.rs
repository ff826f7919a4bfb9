use vstd::prelude::*;

use serde_yaml::Value;

use crate::markdown::{escaped, push_escaped};
use crate::text::occurs_at;

verus! {

/// A YAML value of document metadata, as the YAML parser reads it.
pub enum MetadataValue {
    Null,
    Bool(bool),
    /// A number, by the text that the YAML parser writes for it.
    Number(String),
    Text(String),
    Sequence(Vec<MetadataValue>),
    Mapping(Vec<MetadataField>),
    Tagged(Box<MetadataValue>),
}

/// One key and value of a YAML mapping, in document order.
pub struct MetadataField {
    pub key: MetadataValue,
    pub value: MetadataValue,
}

/// The outcome of reading frontmatter as YAML.
pub enum YamlDocument {
    Parsed(MetadataValue),
    /// The YAML parser's message.
    Invalid(String),
}

pub open spec fn bool_text(value: bool) -> Seq<char> {
    if value {
        "true"@
    } else {
        "false"@
    }
}

/// The label of a mapping key: scalars by their text, collections as "complex key".
pub open spec fn key_text(key: MetadataValue) -> Seq<char>
    decreases key,
{
    match key {
        MetadataValue::Null => "null"@,
        MetadataValue::Bool(value) => bool_text(value),
        MetadataValue::Number(text) => text@,
        MetadataValue::Text(text) => text@,
        MetadataValue::Sequence(_) => "complex key"@,
        MetadataValue::Mapping(_) => "complex key"@,
        MetadataValue::Tagged(inner) => key_text(*inner),
    }
}

/// The HTML of a metadata value: scalars as text, sequences as lists, mappings as description
/// lists, tags dropped.
pub open spec fn value_html(value: MetadataValue) -> Seq<char>
    decreases value,
{
    match value {
        MetadataValue::Null => "None"@,
        MetadataValue::Bool(flag) => bool_text(flag),
        MetadataValue::Number(text) => text@,
        MetadataValue::Text(text) => escaped(text@),
        MetadataValue::Sequence(items) => "<ul>"@ + items_html(items@) + "</ul>"@,
        MetadataValue::Mapping(fields) => "<dl>"@ + fields_html(fields@) + "</dl>"@,
        MetadataValue::Tagged(inner) => value_html(*inner),
    }
}

/// The list items of a sequence.
pub open spec fn items_html(items: Seq<MetadataValue>) -> Seq<char>
    decreases items,
{
    if items.len() == 0 {
        Seq::empty()
    } else {
        items_html(items.drop_last()) + "<li>"@ + value_html(items.last()) + "</li>"@
    }
}

/// The description-list entries of a nested mapping.
pub open spec fn fields_html(fields: Seq<MetadataField>) -> Seq<char>
    decreases fields,
{
    if fields.len() == 0 {
        Seq::empty()
    } else {
        fields_html(fields.drop_last()) + "<div><dt>"@ + escaped(key_text(fields.last().key))
            + "</dt><dd>"@ + value_html(fields.last().value) + "</dd></div>"@
    }
}


/// Appends the label of a mapping key.
pub fn key_label(key: &MetadataValue) -> (label: String)
    ensures
        label@ == key_text(*key),
    decreases key,
{
    match key {
        MetadataValue::Null => "null".to_owned(),
        MetadataValue::Bool(value) => if *value {
            "true".to_owned()
        } else {
            "false".to_owned()
        },
        MetadataValue::Number(text) => text.clone(),
        MetadataValue::Text(text) => text.clone(),
        MetadataValue::Sequence(_) => "complex key".to_owned(),
        MetadataValue::Mapping(_) => "complex key".to_owned(),
        MetadataValue::Tagged(inner) => key_label(inner),
    }
}

/// Appends the HTML of a metadata value.
pub fn push_value_html(out: &mut String, value: &MetadataValue)
    ensures
        final(out)@ == old(out)@ + value_html(*value),
    decreases value,
{
    let ghost start = out@;
    match value {
        MetadataValue::Null => out.append("None"),
        MetadataValue::Bool(flag) => if *flag {
            out.append("true")
        } else {
            out.append("false")
        },
        MetadataValue::Number(text) => out.append(text.as_str()),
        MetadataValue::Text(text) => push_escaped(out, text.as_str()),
        MetadataValue::Sequence(items) => {
            out.append("<ul>");
            let mut index: usize = 0;
            while index < items.len()
                invariant
                    index <= items@.len(),
                    out@ == start + "<ul>"@ + items_html(items@.take(index as int)),
                    *value == MetadataValue::Sequence(*items),
                decreases items@.len() - index,
            {
                proof {
                    let vs = value->Sequence_0;
                    assert(decreases_to!(*value => vs));
                    assert(decreases_to!(vs => vs@));
                    assert(decreases_to!(vs@ => vs@[index as int]));
                    assert(decreases_to!(*value => items@[index as int]));
                }
                proof {
                    assert(items@.take(index + 1).drop_last() =~= items@.take(index as int));
                }
                out.append("<li>");
                push_value_html(out, &items[index]);
                out.append("</li>");
                index = index + 1;
                assert(out@ =~= start + "<ul>"@ + items_html(items@.take(index as int)));
            }
            out.append("</ul>");
            assert(items@.take(items@.len() as int) =~= items@);
        },
        MetadataValue::Mapping(fields) => {
            out.append("<dl>");
            let mut index: usize = 0;
            while index < fields.len()
                invariant
                    index <= fields@.len(),
                    out@ == start + "<dl>"@ + fields_html(fields@.take(index as int)),
                    *value == MetadataValue::Mapping(*fields),
                decreases fields@.len() - index,
            {
                proof {
                    let fs = value->Mapping_0;
                    assert(decreases_to!(*value => fs));
                    assert(decreases_to!(fs => fs@));
                    assert(decreases_to!(fs@ => fs@[index as int]));
                    assert(decreases_to!(fs@[index as int] => fs@[index as int].value));
                    assert(decreases_to!(*value => fields@[index as int].value));
                }
                proof {
                    assert(fields@.take(index + 1).drop_last() =~= fields@.take(index as int));
                }
                out.append("<div><dt>");
                let label = key_label(&fields[index].key);
                push_escaped(out, label.as_str());
                out.append("</dt><dd>");
                push_value_html(out, &fields[index].value);
                out.append("</dd></div>");
                index = index + 1;
                assert(out@ =~= start + "<dl>"@ + fields_html(fields@.take(index as int)));
            }
            out.append("</dl>");
            assert(fields@.take(fields@.len() as int) =~= fields@);
        },
        MetadataValue::Tagged(inner) => push_value_html(out, inner),
    }
    assert(out@ =~= start + value_html(*value));
}

#[verifier::opaque]
/// One cell pair of the metadata table: the key as a row header and the value beside it,
/// spanning the remaining columns when it is the last field of an odd count.
pub open spec fn field_cells(field: MetadataField, spans_remaining_columns: bool) -> Seq<char> {
    "<th scope=\"row\">"@ + escaped(key_text(field.key)) + "</th><td"@ + (if spans_remaining_columns {
        " colspan=\"3\""@
    } else {
        Seq::empty()
    }) + ">"@ + value_html(field.value) + "</td>"@
}

/// The rows of the metadata table: the fields two to a row, in document order.
pub open spec fn table_rows(fields: Seq<MetadataField>) -> Seq<char>
    decreases fields.len(),
{
    if fields.len() == 0 {
        Seq::empty()
    } else if fields.len() == 1 {
        "<tr>"@ + field_cells(fields[0], true) + "</tr>"@
    } else {
        "<tr>"@ + field_cells(fields[0], false) + field_cells(fields[1], false) + "</tr>"@
            + table_rows(fields.skip(2))
    }
}

/// The metadata section shown before a document body.
pub open spec fn metadata_section(fields: Seq<MetadataField>) -> Seq<char> {
    "<section class=\"document-metadata\" aria-label=\"Document metadata\"><table><caption>Document metadata</caption><tbody>"@
        + table_rows(fields) + "</tbody></table></section>"@
}

fn push_field_cells(out: &mut String, field: &MetadataField, spans_remaining_columns: bool)
    ensures
        final(out)@ == old(out)@ + field_cells(*field, spans_remaining_columns),
{
    let ghost start = out@;
    out.append("<th scope=\"row\">");
    let label = key_label(&field.key);
    push_escaped(out, label.as_str());
    out.append("</th><td");
    if spans_remaining_columns {
        out.append(" colspan=\"3\"");
    }
    out.append(">");
    push_value_html(out, &field.value);
    out.append("</td>");
    reveal(field_cells);
    assert(out@ =~= start + field_cells(*field, spans_remaining_columns));
}

/// The rows of the metadata table for a list of fields.
#[verifier::spinoff_prover]
fn metadata_rows(fields: &Vec<MetadataField>) -> (rows: String)
    ensures
        rows@ == table_rows(fields@),
{
    let mut rows = String::new();
    let mut index: usize = 0;
    assert(fields@.skip(0) =~= fields@);
    while index < fields.len()
        invariant
            index <= fields@.len(),
            table_rows(fields@) == rows@ + table_rows(fields@.skip(index as int)),
        decreases fields@.len() - index,
    {
        let ghost rest = fields@.skip(index as int);
        rows.append("<tr>");
        if fields.len() - index == 1 {
            push_field_cells(&mut rows, &fields[index], true);
            rows.append("</tr>");
            index = index + 1;
            assert(fields@.skip(index as int).len() == 0);
        } else {
            push_field_cells(&mut rows, &fields[index], false);
            push_field_cells(&mut rows, &fields[index + 1], false);
            rows.append("</tr>");
            assert(rest.skip(2) =~= fields@.skip(index + 2));
            index = index + 2;
        }
    }
    assert(rows@ =~= table_rows(fields@));
    rows
}

/// The metadata section of a YAML mapping.
pub fn metadata_html(fields: &Vec<MetadataField>) -> (html: String)
    ensures
        html@ == metadata_section(fields@),
{
    let mut html = String::new();
    html.append(
        "<section class=\"document-metadata\" aria-label=\"Document metadata\"><table><caption>Document metadata</caption><tbody>",
    );
    let rows = metadata_rows(fields);
    html.append(rows.as_str());
    html.append("</tbody></table></section>");
    assert(html@ =~= metadata_section(fields@));
    html
}

/// The block shown for frontmatter that has no fields.
pub open spec fn empty_metadata_text() -> Seq<char> {
    "<section class=\"document-metadata\" aria-label=\"Document metadata\"><table><caption>Document metadata</caption><tbody><tr><td class=\"document-metadata-empty\" colspan=\"4\">No metadata fields were supplied.</td></tr></tbody></table></section>"@
}

/// The block shown for frontmatter that has no fields.
pub fn empty_metadata_html() -> (html: String)
    ensures
        html@ == empty_metadata_text(),
{
    "<section class=\"document-metadata\" aria-label=\"Document metadata\"><table><caption>Document metadata</caption><tbody><tr><td class=\"document-metadata-empty\" colspan=\"4\">No metadata fields were supplied.</td></tr></tbody></table></section>".to_owned()
}

/// The notice shown for frontmatter that cannot be read, with the problem escaped.
pub open spec fn frontmatter_error_text(problem: Seq<char>) -> Seq<char> {
    "<aside class=\"frontmatter-error\" role=\"alert\"><p><strong>Could not parse YAML frontmatter.</strong></p><p>"@
        + escaped(problem)
        + "</p><p>Fix the YAML between the opening and closing delimiters.</p></aside>"@
}

/// The notice shown for frontmatter that cannot be read.
pub fn frontmatter_error(problem: &str) -> (html: String)
    ensures
        html@ == frontmatter_error_text(problem@),
{
    let mut html = String::new();
    html.append(
        "<aside class=\"frontmatter-error\" role=\"alert\"><p><strong>Could not parse YAML frontmatter.</strong></p><p>",
    );
    push_escaped(&mut html, problem);
    html.append("</p><p>Fix the YAML between the opening and closing delimiters.</p></aside>");
    assert(html@ =~= frontmatter_error_text(problem@));
    html
}

/// The HTML shown for a frontmatter block that was read as YAML: a mapping as the metadata
/// table, an empty document as the no-fields notice, anything else as an error notice.
pub open spec fn yaml_block_text(document: YamlDocument) -> Seq<char> {
    match document {
        YamlDocument::Parsed(MetadataValue::Mapping(fields)) => metadata_section(fields@),
        YamlDocument::Parsed(MetadataValue::Null) => empty_metadata_text(),
        YamlDocument::Parsed(_) => frontmatter_error_text(
            "YAML frontmatter must be a mapping of metadata fields."@,
        ),
        YamlDocument::Invalid(message) => frontmatter_error_text(message@),
    }
}

/// The HTML shown for a frontmatter block that was read as YAML.
pub fn yaml_block_html(document: &YamlDocument) -> (html: String)
    ensures
        html@ == yaml_block_text(*document),
{
    match document {
        YamlDocument::Parsed(MetadataValue::Mapping(fields)) => metadata_html(fields),
        YamlDocument::Parsed(MetadataValue::Null) => empty_metadata_html(),
        YamlDocument::Parsed(_) => frontmatter_error(
            "YAML frontmatter must be a mapping of metadata fields.",
        ),
        YamlDocument::Invalid(message) => frontmatter_error(message.as_str()),
    }
}


#[verifier::external_type_specification]
#[verifier::external_body]
pub struct ExYamlValue(Value);

impl MetadataValue {
    /// Converts a serde_yaml value, variant by variant; a number is kept by its display text.
    #[verifier::external_body]
    fn from_yaml(value: Value) -> MetadataValue {
        match value {
            Value::Null => MetadataValue::Null,
            Value::Bool(flag) => MetadataValue::Bool(flag),
            Value::Number(number) => MetadataValue::Number(number.to_string()),
            Value::String(text) => MetadataValue::Text(text),
            Value::Sequence(items) => MetadataValue::Sequence(items.into_iter().map(MetadataValue::from_yaml).collect()),
            Value::Mapping(fields) => MetadataValue::Mapping(fields.into_iter().map(|(key, value)| MetadataField { key: MetadataValue::from_yaml(key), value: MetadataValue::from_yaml(value) }).collect()),
            Value::Tagged(tagged) => MetadataValue::Tagged(Box::new(MetadataValue::from_yaml(tagged.value))),
        }
    }
}

/// What serde_yaml reads from a frontmatter source.
pub uninterp spec fn yaml_reading(source: Seq<char>) -> YamlDocument;

/// Reads a frontmatter source with serde_yaml's `from_str::<Value>`, converting the value, or
/// keeping the parser's error message. The outcome is named `yaml_reading`: the same source
/// always reads the same way.
#[verifier::external_body]
pub(crate) fn read_yaml(source: &str) -> (document: YamlDocument)
    ensures
        document == yaml_reading(source@),
{
    match serde_yaml::from_str::<Value>(source) {
        Ok(value) => YamlDocument::Parsed(MetadataValue::from_yaml(value)),
        Err(error) => YamlDocument::Invalid(error.to_string()),
    }
}

/// Whether the cells of a field stand at a position of a text, spanning the remaining columns
/// exactly when the field is the last of an odd count.
pub open spec fn cells_at(text: Seq<char>, fields: Seq<MetadataField>, i: int, at: int) -> bool {
    occurs_at(
        text,
        field_cells(fields[i], i + 1 == fields.len() && fields.len() % 2 == 1),
        at,
    )
}

proof fn lemma_occurs_after(front: Seq<char>, text: Seq<char>, pattern: Seq<char>, at: int)
    requires
        occurs_at(text, pattern, at),
    ensures
        occurs_at(front + text, pattern, front.len() + at),
{
    assert((front + text).subrange(front.len() + at, front.len() + at + pattern.len())
        =~= text.subrange(at, at + pattern.len()));
}

proof fn lemma_cell_offsets(fields: Seq<MetadataField>) -> (offsets: Seq<int>)
    ensures
        offsets.len() == fields.len(),
        forall|i: int| 0 <= i < fields.len() ==> cells_at(table_rows(fields), fields, i, #[trigger] offsets[i]),
        forall|i: int|
            0 <= i < fields.len() - 1 ==> #[trigger] offsets[i] + field_cells(fields[i], false).len()
                <= offsets[i + 1],
    decreases fields.len(),
{
    reveal_strlit("<tr>");
    reveal_strlit("</tr>");
    let rows = table_rows(fields);
    if fields.len() == 0 {
        Seq::empty()
    } else if fields.len() == 1 {
        let cells = field_cells(fields[0], true);
        assert(rows.subrange(4, 4 + cells.len() as int) =~= cells);
        seq![4int]
    } else {
        let rest = fields.skip(2);
        let later = lemma_cell_offsets(rest);
        let first = field_cells(fields[0], false);
        let second = field_cells(fields[1], false);
        let row = "<tr>"@ + first + second + "</tr>"@;
        assert(rows == row + table_rows(rest));
        assert(rows.subrange(4, 4 + first.len() as int) =~= first);
        assert(rows.subrange(4 + first.len() as int, 4 + first.len() as int + second.len() as int) =~= second);
        let offsets = seq![4int, 4 + first.len() as int] + later.map(|j: int, o: int| o + row.len() as int);
        assert forall|i: int| 0 <= i < fields.len() implies cells_at(rows, fields, i, #[trigger] offsets[i]) by {
            if i >= 2 {
                assert(rest[i - 2] == fields[i]);
                assert(cells_at(table_rows(rest), rest, i - 2, later[i - 2]));
                lemma_occurs_after(
                    row,
                    table_rows(rest),
                    field_cells(rest[i - 2], i - 1 == rest.len() && rest.len() % 2 == 1),
                    later[i - 2],
                );
            }
        }
        assert forall|i: int|
            0 <= i < fields.len() - 1 implies #[trigger] offsets[i] + field_cells(fields[i], false).len()
                <= offsets[i + 1] by {
            if i >= 2 {
                assert(rest[i - 2] == fields[i]);
            } else if i == 1 && fields.len() > 2 {
                assert(cells_at(table_rows(rest), rest, 0, later[0]));
            }
        }
        offsets
    }
}

/// The metadata table lists the frontmatter's fields in document order: the cells of each
/// field, its key as the row header, stand in the rows after those of the field before it.
pub proof fn lemma_rows_keep_field_order(fields: Seq<MetadataField>)
    ensures
        exists|offsets: Seq<int>|
            #![trigger offsets.len()]
            offsets.len() == fields.len() && (forall|i: int|
                0 <= i < fields.len() ==> cells_at(table_rows(fields), fields, i, #[trigger] offsets[i]))
                && (forall|i: int|
                0 <= i < fields.len() - 1 ==> #[trigger] offsets[i] + field_cells(
                    fields[i],
                    false,
                ).len() <= offsets[i + 1]),
{
    let offsets = lemma_cell_offsets(fields);
    assert(offsets.len() == fields.len());
}

} // verus!
