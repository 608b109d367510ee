//! A board snapshot: cards, custom fields, labels and lists, with lookups by
//! name and the tracking value of a card.
use vstd::prelude::*;

use crate::sync::{Entity, SyncError};
use crate::timestamp::Timestamp;

verus! {

#[verifier::external_type_specification]
#[verifier::external_body]
pub struct ExJsonValue(serde_json::Value);

/// Everything read from one board: its cards, custom-field definitions,
/// labels and lists, in the order the board service listed them.
#[derive(Debug)]
pub struct Board {
    pub cards: Vec<Card>,
    pub custom_fields: Vec<CustomFieldDesc>,
    pub labels: Vec<Label>,
    pub lists: Vec<List>,
}

/// The definition of a custom field of a board.
#[derive(Debug)]
pub struct CustomFieldDesc {
    pub id: String,
    pub name: String,
}

/// A card on the board.
#[derive(Debug)]
pub struct Card {
    pub id: String,
    pub name: String,
    pub desc: String,
    pub due: Option<Timestamp>,
    pub due_complete: bool,
    pub labels: Vec<Label>,
    pub custom_field_items: Vec<CustomFieldItem>,
}

#[derive(Debug)]
pub struct Label {
    pub id: String,
    pub name: String,
}

#[derive(Debug)]
pub struct List {
    pub id: String,
    pub name: String,
}

/// The value one card holds for one custom field.
#[derive(Debug)]
pub struct CustomFieldItem {
    pub id: String,
    pub value: CustomFieldValue,
    pub id_custom_field: String,
}

/// A custom-field value: text, or any other shape, carried along untouched.
#[derive(Debug)]
pub enum CustomFieldValue {
    Text { text: String },
    Other { value: serde_json::Value },
}

/// The fields of a card to be created.
#[derive(Debug)]
pub struct CreateCard {
    pub name: String,
    pub desc: String,
    pub due: Timestamp,
    pub due_complete: bool,
    pub label_ids: Vec<String>,
}

/// A custom-field value as the reconciliation sees it: the field it belongs to
/// and its text, if it is a text value.
pub struct FieldView {
    pub field_id: Seq<char>,
    pub text: Option<Seq<char>>,
}

/// A card as the reconciliation sees it.
pub struct CardView {
    pub id: Seq<char>,
    pub desc: Seq<char>,
    pub due: Option<Timestamp>,
    pub due_complete: bool,
    pub fields: Seq<FieldView>,
}

impl View for CustomFieldItem {
    type V = FieldView;

    open spec fn view(&self) -> FieldView {
        FieldView {
            field_id: self.id_custom_field@,
            text: match self.value {
                CustomFieldValue::Text { text } => Some(text@),
                CustomFieldValue::Other { .. } => None,
            },
        }
    }
}

impl View for Card {
    type V = CardView;

    open spec fn view(&self) -> CardView {
        CardView {
            id: self.id@,
            desc: self.desc@,
            due: self.due,
            due_complete: self.due_complete,
            fields: self.custom_field_items@.map_values(|i: CustomFieldItem| i@),
        }
    }
}

/// The text that `fields` hold for the custom field `field_id`: that of the
/// first item of the field, if it is a text value.
pub open spec fn tracking_value(fields: Seq<FieldView>, field_id: Seq<char>) -> Option<Seq<char>>
    decreases fields.len(),
{
    if fields.len() == 0 {
        None
    } else if fields[0].field_id == field_id {
        fields[0].text
    } else {
        tracking_value(fields.drop_first(), field_id)
    }
}

/// `i` is the position of the first of `names` equal to `name`.
pub open spec fn is_first_named(names: Seq<Seq<char>>, name: Seq<char>, i: int) -> bool {
    &&& 0 <= i < names.len()
    &&& names[i] == name
    &&& forall|j: int| 0 <= j < i ==> names[j] != name
}

/// What a lookup by name returns: the id at the first position named `name`,
/// or `NotFound` when no position is.
pub open spec fn lookup_result(
    names: Seq<Seq<char>>,
    ids: Seq<Seq<char>>,
    name: Seq<char>,
    kind: Entity,
    r: Result<String, SyncError>,
) -> bool {
    match r {
        Ok(id) => exists|i: int| is_first_named(names, name, i) && id@ == ids[i],
        Err(e) => {
            &&& forall|i: int| 0 <= i < names.len() ==> names[i] != name
            &&& match e {
                SyncError::NotFound { kind: k, name: n } => k == kind && n@ == name,
                _ => false,
            }
        },
    }
}

impl CustomFieldItem {
    /// The text of this value, if it is a text value.
    pub fn as_str(&self) -> (r: Option<&str>)
        ensures
            match r {
                Some(s) => self@.text == Some(s@),
                None => self@.text is None,
            },
    {
        match &self.value {
            CustomFieldValue::Text { text } => Some(text.as_str()),
            _ => None,
        }
    }
}

impl Card {
    /// The text this card holds for the custom field `field_id`.
    pub fn tracking_text(&self, field_id: &String) -> (r: Option<&str>)
        ensures
            match r {
                Some(s) => tracking_value(self@.fields, field_id@) == Some(s@),
                None => tracking_value(self@.fields, field_id@) is None,
            },
    {
        let items = &self.custom_field_items;
        let ghost fields = self@.fields;
        let mut i: usize = 0;
        assert(fields.skip(0) =~= fields);
        while i < items.len()
            invariant
                i <= items@.len(),
                fields == self@.fields,
                fields == items@.map_values(|it: CustomFieldItem| it@),
                tracking_value(fields, field_id@) == tracking_value(fields.skip(i as int), field_id@),
            decreases items@.len() - i,
        {
            let ghost rest = fields.skip(i as int);
            assert(rest.drop_first() =~= fields.skip(i + 1));
            assert(rest[0] == items@[i as int]@);
            if items[i].id_custom_field == *field_id {
                return items[i].as_str();
            }
            i = i + 1;
        }
        assert(fields.skip(i as int).len() == 0);
        None
    }
}

impl Board {
    /// The id of the first custom field named `name`.
    pub fn custom_field_id_by_name(&self, name: &String) -> (r: Result<String, SyncError>)
        ensures
            lookup_result(
                self.custom_fields@.map_values(|f: CustomFieldDesc| f.name@),
                self.custom_fields@.map_values(|f: CustomFieldDesc| f.id@),
                name@,
                Entity::CustomField,
                r,
            ),
    {
        let ghost names = self.custom_fields@.map_values(|f: CustomFieldDesc| f.name@);
        let mut i: usize = 0;
        while i < self.custom_fields.len()
            invariant
                i <= self.custom_fields@.len(),
                names == self.custom_fields@.map_values(|f: CustomFieldDesc| f.name@),
                forall|j: int| 0 <= j < i ==> names[j] != name@,
            decreases self.custom_fields@.len() - i,
        {
            if self.custom_fields[i].name == *name {
                let id = self.custom_fields[i].id.clone();
                assert(is_first_named(names, name@, i as int));
                assert(self.custom_fields@.map_values(|f: CustomFieldDesc| f.id@)[i as int] == id@);
                return Ok(id);
            }
            i = i + 1;
        }
        Err(SyncError::NotFound { kind: Entity::CustomField, name: name.clone() })
    }

    /// The id of the first list named `name`.
    pub fn list_id_by_name(&self, name: &String) -> (r: Result<String, SyncError>)
        ensures
            lookup_result(
                self.lists@.map_values(|l: List| l.name@),
                self.lists@.map_values(|l: List| l.id@),
                name@,
                Entity::List,
                r,
            ),
    {
        let ghost names = self.lists@.map_values(|l: List| l.name@);
        let mut i: usize = 0;
        while i < self.lists.len()
            invariant
                i <= self.lists@.len(),
                names == self.lists@.map_values(|l: List| l.name@),
                forall|j: int| 0 <= j < i ==> names[j] != name@,
            decreases self.lists@.len() - i,
        {
            if self.lists[i].name == *name {
                let id = self.lists[i].id.clone();
                assert(is_first_named(names, name@, i as int));
                assert(self.lists@.map_values(|l: List| l.id@)[i as int] == id@);
                return Ok(id);
            }
            i = i + 1;
        }
        Err(SyncError::NotFound { kind: Entity::List, name: name.clone() })
    }

    /// The id of the first label named `name`.
    pub fn label_id_by_name(&self, name: &String) -> (r: Result<String, SyncError>)
        ensures
            lookup_result(
                self.labels@.map_values(|l: Label| l.name@),
                self.labels@.map_values(|l: Label| l.id@),
                name@,
                Entity::Label,
                r,
            ),
    {
        let ghost names = self.labels@.map_values(|l: Label| l.name@);
        let mut i: usize = 0;
        while i < self.labels.len()
            invariant
                i <= self.labels@.len(),
                names == self.labels@.map_values(|l: Label| l.name@),
                forall|j: int| 0 <= j < i ==> names[j] != name@,
            decreases self.labels@.len() - i,
        {
            if self.labels[i].name == *name {
                let id = self.labels[i].id.clone();
                assert(is_first_named(names, name@, i as int));
                assert(self.labels@.map_values(|l: Label| l.id@)[i as int] == id@);
                return Ok(id);
            }
            i = i + 1;
        }
        Err(SyncError::NotFound { kind: Entity::Label, name: name.clone() })
    }
}

} // verus!
