use patchbay_server::display::crud::{
    crudkit_i64_id, selected_trigger_id, serializable_i64_id, value_to_optional_i64, CrudValue,
    CrudView, IdEntry, IdValue,
};

#[test]
fn integer_values_are_widened() {
    assert_eq!(value_to_optional_i64(&CrudValue::I64(-5)), Some(-5));
    assert_eq!(value_to_optional_i64(&CrudValue::I32(-70000)), Some(-70000));
    assert_eq!(value_to_optional_i64(&CrudValue::I16(-3)), Some(-3));
    assert_eq!(value_to_optional_i64(&CrudValue::I8(-1)), Some(-1));
    assert_eq!(value_to_optional_i64(&CrudValue::U32(4_000_000_000)), Some(4_000_000_000));
    assert_eq!(value_to_optional_i64(&CrudValue::U16(65535)), Some(65535));
    assert_eq!(value_to_optional_i64(&CrudValue::U8(255)), Some(255));
    assert_eq!(value_to_optional_i64(&CrudValue::U64(9_223_372_036_854_775_807)), Some(i64::MAX));
    assert_eq!(value_to_optional_i64(&CrudValue::U64(9_223_372_036_854_775_808)), None);
}

#[test]
fn text_values_are_parsed() {
    assert_eq!(value_to_optional_i64(&CrudValue::Text("42".to_owned())), Some(42));
    assert_eq!(value_to_optional_i64(&CrudValue::Text("-7".to_owned())), Some(-7));
    assert_eq!(value_to_optional_i64(&CrudValue::Text("+7".to_owned())), Some(7));
    assert_eq!(value_to_optional_i64(&CrudValue::Text(" 7".to_owned())), None);
    assert_eq!(value_to_optional_i64(&CrudValue::Text("x".to_owned())), None);
    assert_eq!(value_to_optional_i64(&CrudValue::Null), None);
    assert_eq!(value_to_optional_i64(&CrudValue::Void), None);
    assert_eq!(value_to_optional_i64(&CrudValue::Other), None);
}

#[test]
fn row_ids_take_the_first_signed_integer() {
    let id = vec![
        IdEntry { field_name: "name".to_owned(), value: IdValue::Other },
        IdEntry { field_name: "id".to_owned(), value: IdValue::I16(12) },
        IdEntry { field_name: "other".to_owned(), value: IdValue::I64(99) },
    ];
    assert_eq!(serializable_i64_id(&id), Some(12));
    assert_eq!(serializable_i64_id(&Vec::new()), None);
    assert_eq!(serializable_i64_id(&crudkit_i64_id(31)), Some(31));
    assert_eq!(crudkit_i64_id(31)[0].field_name, "id");
}

#[test]
fn only_read_and_edit_views_select_a_trigger() {
    assert_eq!(selected_trigger_id(&CrudView::Read(crudkit_i64_id(4))), Some(4));
    assert_eq!(selected_trigger_id(&CrudView::Edit(crudkit_i64_id(5))), Some(5));
    assert_eq!(selected_trigger_id(&CrudView::List), None);
    assert_eq!(selected_trigger_id(&CrudView::Create), None);
}
