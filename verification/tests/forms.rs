use patchbay_server::display::forms::{
    without_crudkit_enclosing_field, without_crudkit_field, FormElement, FormEnclosing, FormGroup,
    FormTab,
};

fn field(name: &str) -> FormElement {
    FormElement::Field(name.to_owned())
}

fn group(children: Vec<FormElement>) -> FormGroup {
    FormGroup { children }
}

#[test]
fn fields_with_the_name_are_dropped_at_every_depth() {
    let elements = vec![
        field("title"),
        field("state"),
        FormElement::Enclosing(FormEnclosing::Card(group(vec![field("state"), field("body")]))),
        FormElement::Enclosing(FormEnclosing::Tabs(vec![
            FormTab { label: "Main".to_owned(), group: group(vec![field("state")]) },
            FormTab {
                label: "More".to_owned(),
                group: group(vec![FormElement::Enclosing(FormEnclosing::Plain(group(vec![
                    field("state"),
                    FormElement::Other,
                ])))]),
            },
        ])),
        FormElement::Other,
    ];
    let expected = vec![
        field("title"),
        FormElement::Enclosing(FormEnclosing::Card(group(vec![field("body")]))),
        FormElement::Enclosing(FormEnclosing::Tabs(vec![
            FormTab { label: "Main".to_owned(), group: group(vec![]) },
            FormTab {
                label: "More".to_owned(),
                group: group(vec![FormElement::Enclosing(FormEnclosing::Plain(group(vec![
                    FormElement::Other,
                ])))]),
            },
        ])),
        FormElement::Other,
    ];
    assert_eq!(without_crudkit_field(elements, "state"), expected);
}

#[test]
fn other_names_are_kept() {
    let elements = vec![field("title"), field("body")];
    assert_eq!(without_crudkit_field(elements, "state"), vec![field("title"), field("body")]);
    assert_eq!(without_crudkit_field(Vec::new(), "state"), Vec::new());
}

#[test]
fn an_enclosing_group_loses_the_field() {
    let plain = FormEnclosing::Plain(group(vec![field("state"), field("title")]));
    assert_eq!(
        without_crudkit_enclosing_field(plain, "state"),
        FormEnclosing::Plain(group(vec![field("title")]))
    );
}
