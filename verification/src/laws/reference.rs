//! The reference of the configuration.

use crate::laws::texts::{holds, lemma_holds_middle, lemma_holds_wider};
use crate::readme::{behind, config_field_lines, config_fields_lines, default_line, default_named, doc_text, empty_composite, entry_named, example_of, formatted, listed_fields, paragraph, reference_of, setting_lines, struct_field_lines, struct_named, theme_field_lines, variant_lines, variants_lines, ConfigModelV, DefaultValueV, FieldDocV, SettingDefaultV, VariantDocV};
use vstd::prelude::*;
use vstd::string::*;

verus! {

proof fn lemma_behind(
    first: Result<Seq<char>, Seq<char>>,
    second: Result<Seq<char>, Seq<char>>,
    part: Seq<char>,
)
    requires
        behind(first, second) is Ok,
    ensures
        first is Ok,
        second is Ok,
        behind(first, second)->Ok_0 == first->Ok_0 + second->Ok_0,
        holds(first->Ok_0, part) || holds(second->Ok_0, part) ==> holds(
            behind(first, second)->Ok_0,
            part,
        ),
{
    lemma_sum_holds(first->Ok_0, second->Ok_0, part);
}

proof fn lemma_sum_holds(first: Seq<char>, second: Seq<char>, part: Seq<char>)
    ensures
        holds(first, part) || holds(second, part) ==> holds(first + second, part),
        part == first || part == second ==> holds(first + second, part),
{
    let none = Seq::<char>::empty();
    assert(none + first + second =~= first + second);
    assert(first + second + none =~= first + second);
    if holds(first, part) {
        lemma_holds_wider(none, first, second, part);
    }
    if holds(second, part) {
        lemma_holds_wider(first, second, none, part);
    }
    if part == first {
        lemma_holds_middle(none, first, second);
    }
    if part == second {
        lemma_holds_middle(first, second, none);
    }
}

/// A list of fields names every one of them in turn, and is refused where one has no name or says
/// nothing to its readers.
pub proof fn lemma_every_field_is_listed(
    fields: Seq<FieldDocV>,
    from: int,
    lead: Seq<char>,
    owner: Seq<char>,
    i: int,
)
    requires
        listed_fields(fields, from, lead, owner) is Ok,
        0 <= from <= i < fields.len(),
    ensures
        fields[i].name is Some,
        doc_text(fields[i].doc).len() > 0,
        holds(listed_fields(fields, from, lead, owner)->Ok_0, lead + fields[i].name->0),
    decreases i - from,
{
    let name = fields[from].name->0;
    let text = listed_fields(fields, from, lead, owner)->Ok_0;
    let rest = listed_fields(fields, from + 1, lead, owner);
    let line = text.take(text.len() - rest->Ok_0.len());
    assert(line + rest->Ok_0 =~= text);
    if i == from {
        let head = lead + name;
        assert(line.take(head.len() as int) =~= head);
        lemma_sum_holds(head, text.skip(head.len() as int), head);
        assert(head + text.skip(head.len() as int) =~= text);
    } else {
        lemma_every_field_is_listed(fields, from + 1, lead, owner, i);
        lemma_sum_holds(line, rest->Ok_0, lead + fields[i].name->0);
    }
}

proof fn lemma_setting_says_it_all(
    field: FieldDocV,
    name: Seq<char>,
    doc: Seq<char>,
    example: Seq<char>,
    default: Option<DefaultValueV>,
    model: ConfigModelV,
)
    requires
        setting_lines(field, name, doc, example, default, model) is Ok,
    ensures
        ({
            let text = setting_lines(field, name, doc, example, default, model)->Ok_0;
            &&& holds(text, "#### `"@ + name + "`\n\n"@)
            &&& holds(text, doc)
            &&& default is Some && !empty_composite(default->0.shape) ==> holds(
                text,
                "Default: `"@ + formatted(default->0) + "`\n\n"@,
            )
        }),
{
    let text = setting_lines(field, name, doc, example, default, model)->Ok_0;
    let title = "#### `"@ + name + "`\n\n"@;
    let head = title + paragraph(doc) + example;
    let last = default_line(default);
    let none = Seq::<char>::empty();
    let rest = text.skip(head.len() as int);
    assert(head + rest =~= text);
    lemma_holds_middle(none, title, paragraph(doc) + example);
    assert(none + title + (paragraph(doc) + example) =~= head);
    lemma_holds_middle(title, doc, "\n\n"@ + example);
    assert(title + doc + ("\n\n"@ + example) =~= head);
    lemma_sum_holds(head, rest, title);
    lemma_sum_holds(head, rest, doc);
    let front = text.take(text.len() - last.len());
    assert(front + last =~= text);
    lemma_sum_holds(front, last, last);
}

/// Every setting of a table stands in the reference under its name, with what its users are told
/// of it, and with its default where it has one that is more than an empty list or table.
pub proof fn lemma_every_setting_is_documented(
    fields: Seq<FieldDocV>,
    from: int,
    owner: Seq<char>,
    model: ConfigModelV,
    defaults: Seq<(Seq<char>, DefaultValueV)>,
    i: int,
)
    requires
        struct_field_lines(fields, from, owner, model, defaults) is Ok,
        0 <= from <= i < fields.len(),
    ensures
        fields[i].name is Some,
        doc_text(fields[i].doc).len() > 0,
        ({
            let text = struct_field_lines(fields, from, owner, model, defaults)->Ok_0;
            let default = entry_named(defaults, fields[i].name->0);
            &&& holds(text, "#### `"@ + fields[i].name->0 + "`\n\n"@)
            &&& holds(text, doc_text(fields[i].doc))
            &&& default is Some && !empty_composite(default->0.shape) ==> holds(
                text,
                "Default: `"@ + formatted(default->0) + "`\n\n"@,
            )
        }),
    decreases i - from,
{
    let name = fields[from].name->0;
    let doc = doc_text(fields[from].doc);
    let first = setting_lines(
        fields[from],
        name,
        doc,
        Seq::empty(),
        entry_named(defaults, name),
        model,
    );
    let rest = struct_field_lines(fields, from + 1, owner, model, defaults);
    let default = entry_named(defaults, fields[i].name->0);
    if i == from {
        lemma_setting_says_it_all(
            fields[from],
            name,
            doc,
            Seq::empty(),
            entry_named(defaults, name),
            model,
        );
    } else {
        lemma_every_setting_is_documented(fields, from + 1, owner, model, defaults, i);
    }
    lemma_behind(first, rest, "#### `"@ + fields[i].name->0 + "`\n\n"@);
    lemma_behind(first, rest, doc_text(fields[i].doc));
    lemma_behind(first, rest, "Default: `"@ + formatted(default->0) + "`\n\n"@);
}

/// Every colour of the theme stands in the reference with its default.
pub proof fn lemma_every_colour_is_documented(
    fields: Seq<FieldDocV>,
    from: int,
    defaults: Seq<(Seq<char>, DefaultValueV)>,
    i: int,
)
    requires
        theme_field_lines(fields, from, defaults) is Ok,
        0 <= from <= i < fields.len(),
    ensures
        fields[i].name is Some,
        entry_named(defaults, fields[i].name->0) is Some,
        holds(
            theme_field_lines(fields, from, defaults)->Ok_0,
            fields[i].name->0 + " = "@ + formatted(entry_named(defaults, fields[i].name->0)->0)
                + "\n"@,
        ),
    decreases i - from,
{
    let name = fields[from].name->0;
    let line = name + " = "@ + formatted(entry_named(defaults, name)->0) + "\n"@;
    let rest = theme_field_lines(fields, from + 1, defaults);
    if i > from {
        lemma_every_colour_is_documented(fields, from + 1, defaults, i);
    }
    lemma_sum_holds(
        line,
        rest->Ok_0,
        fields[i].name->0 + " = "@ + formatted(entry_named(defaults, fields[i].name->0)->0)
            + "\n"@,
    );
}

/// Every form that a setting takes is listed, by what its users are told of it.
pub proof fn lemma_every_form_is_listed(
    variants: Seq<VariantDocV>,
    from: int,
    element: Seq<char>,
    i: int,
)
    requires
        variants_lines(variants, from, element) is Ok,
        0 <= from <= i < variants.len(),
    ensures
        doc_text(variants[i].doc).len() > 0,
        holds(
            variants_lines(variants, from, element)->Ok_0,
            "- "@ + doc_text(variants[i].doc) + "\n"@,
        ),
    decreases i - from,
{
    let first = variant_lines(variants[from], element);
    let rest = variants_lines(variants, from + 1, element);
    let head = "- "@ + doc_text(variants[i].doc) + "\n"@;
    if i == from {
        let text = first->Ok_0;
        assert(text.take(head.len() as int) =~= head);
        assert(head + text.skip(head.len() as int) =~= text);
        lemma_sum_holds(head, text.skip(head.len() as int), head);
    } else {
        lemma_every_form_is_listed(variants, from + 1, element, i);
    }
    lemma_behind(first, rest, head);
}

/// Whether a text tells of a field of the configuration: in a section of its own where it is a
/// table, else as a setting.
pub open spec fn tells_of(text: Seq<char>, field: FieldDocV, model: ConfigModelV) -> bool {
    let is_table = field.type_path is Some && struct_named(
        model.structs,
        field.type_path->0,
    ) is Some;
    &&& field.name is Some
    &&& doc_text(field.doc).len() > 0
    &&& holds(text, doc_text(field.doc))
    &&& is_table ==> holds(text, "### `["@ + field.name->0 + "]`\n\n"@)
    &&& !is_table ==> holds(text, "#### `"@ + field.name->0 + "`\n\n"@)
}

proof fn lemma_telling_goes_on(
    first: Seq<char>,
    second: Seq<char>,
    field: FieldDocV,
    model: ConfigModelV,
)
    requires
        tells_of(first, field, model) || tells_of(second, field, model),
    ensures
        tells_of(first + second, field, model),
{
    lemma_sum_holds(first, second, doc_text(field.doc));
    lemma_sum_holds(first, second, "### `["@ + field.name->0 + "]`\n\n"@);
    lemma_sum_holds(first, second, "#### `"@ + field.name->0 + "`\n\n"@);
}

proof fn lemma_field_is_told_of(
    field: FieldDocV,
    model: ConfigModelV,
    defaults: Seq<SettingDefaultV>,
    default_keys: Seq<char>,
)
    requires
        config_field_lines(field, model, defaults, default_keys) is Ok,
    ensures
        tells_of(config_field_lines(field, model, defaults, default_keys)->Ok_0, field, model),
{
    let text = config_field_lines(field, model, defaults, default_keys)->Ok_0;
    let name = field.name->0;
    let doc = doc_text(field.doc);
    let is_table = field.type_path is Some && struct_named(
        model.structs,
        field.type_path->0,
    ) is Some;
    if is_table {
        let title = "### `["@ + name + "]`\n\n"@;
        let head = title + paragraph(doc);
        assert(text.take(head.len() as int) =~= head);
        let rest = text.skip(head.len() as int);
        assert(head + rest =~= text);
        lemma_sum_holds(title, paragraph(doc), title);
        lemma_holds_middle(title, doc, "\n\n"@);
        assert(title + doc + "\n\n"@ =~= head);
        lemma_sum_holds(head, rest, title);
        lemma_sum_holds(head, rest, doc);
    } else {
        let default = default_named(defaults, name);
        let value = match default {
            Some(default) => Some(default.value),
            None => None,
        };
        lemma_setting_says_it_all(
            field,
            name,
            doc,
            example_of(name),
            value,
            model,
        );
    }
}

proof fn lemma_fields_are_told_of(
    fields: Seq<FieldDocV>,
    from: int,
    model: ConfigModelV,
    defaults: Seq<SettingDefaultV>,
    default_keys: Seq<char>,
    i: int,
)
    requires
        config_fields_lines(fields, from, model, defaults, default_keys) is Ok,
        0 <= from <= i < fields.len(),
    ensures
        tells_of(
            config_fields_lines(fields, from, model, defaults, default_keys)->Ok_0,
            fields[i],
            model,
        ),
    decreases i - from,
{
    let first = config_field_lines(fields[from], model, defaults, default_keys);
    let rest = config_fields_lines(fields, from + 1, model, defaults, default_keys);
    lemma_behind(first, rest, Seq::empty());
    if i == from {
        lemma_field_is_told_of(fields[from], model, defaults, default_keys);
    } else {
        lemma_fields_are_told_of(fields, from + 1, model, defaults, default_keys, i);
    }
    lemma_telling_goes_on(first->Ok_0, rest->Ok_0, fields[i], model);
}

/// The reference tells of every field of the configuration.
pub proof fn lemma_reference_tells_of_every_field(
    model: ConfigModelV,
    defaults: Seq<SettingDefaultV>,
    default_keys: Seq<char>,
)
    requires
        reference_of(model, defaults, default_keys) is Ok,
    ensures
        ({
            let config = struct_named(model.structs, "Config"@);
            &&& config is Some
            &&& config->0.fields is Some
            &&& forall|i: int|
                0 <= i < config->0.fields->0.len() ==> tells_of(
                    reference_of(model, defaults, default_keys)->Ok_0,
                    #[trigger] config->0.fields->0[i],
                    model,
                )
        }),
{
    let config = struct_named(model.structs, "Config"@);
    let fields = config->0.fields->0;
    let text = reference_of(model, defaults, default_keys)->Ok_0;
    let lines = config_fields_lines(fields, 0, model, defaults, default_keys);
    let intro = paragraph(doc_text(config->0.doc));
    assert(text == intro + lines->Ok_0);
    assert forall|i: int| 0 <= i < fields.len() implies tells_of(
        text,
        #[trigger] fields[i],
        model,
    ) by {
        lemma_fields_are_told_of(fields, 0, model, defaults, default_keys, i);
        lemma_telling_goes_on(intro, lines->Ok_0, fields[i], model);
    }
}

} // verus!
