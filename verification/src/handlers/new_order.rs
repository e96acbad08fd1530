//! Writing a new order: what the order form says, and what the page that
//! shows the form offers to choose from.

use crate::data::order::Order;
use crate::models::item::OrderItem;
use crate::models::templates::EditOrderTemplate;
use crate::models::templates::NewOrderTemplate;
use crate::text::concat;
use crate::text::parse_i32;
use crate::text::signed_decimal;
use crate::text::signed_decimal_string;
use crate::text::signed_value;
use crate::text::strip_prefix;
use crate::text::without_prefix;
use vstd::prelude::*;

verus! {

/// One line of an order as the order form gives it.
#[derive(Clone, Debug)]
pub struct FormItem {
    pub manufacturer: String,
    pub manufacturer_pn: String,
    pub quantity: i32,
    pub proposal: String,
    pub project: String,
}

/// A line of the order form as plain values.
pub struct FormItemView {
    pub manufacturer: Seq<char>,
    pub manufacturer_pn: Seq<char>,
    pub quantity: int,
    pub proposal: Seq<char>,
    pub project: Seq<char>,
}

impl View for FormItem {
    type V = FormItemView;

    open spec fn view(&self) -> FormItemView {
        FormItemView {
            manufacturer: self.manufacturer@,
            manufacturer_pn: self.manufacturer_pn@,
            quantity: self.quantity as int,
            proposal: self.proposal@,
            project: self.project@,
        }
    }
}

/// What a filled-in order form says.
#[derive(Clone, Debug)]
pub struct OrderForm {
    pub description: String,
    pub area_division: String,
    pub area_sub_area: String,
    pub items: Vec<FormItem>,
}

/// What an order form says, as plain values.
pub struct OrderFormView {
    pub description: Seq<char>,
    pub area_division: Seq<char>,
    pub area_sub_area: Seq<char>,
    pub items: Seq<FormItemView>,
}

impl View for OrderForm {
    type V = OrderFormView;

    open spec fn view(&self) -> OrderFormView {
        OrderFormView {
            description: self.description@,
            area_division: self.area_division@,
            area_sub_area: self.area_sub_area@,
            items: item_views(self.items@),
        }
    }
}

/// Why an order form cannot be read.
#[derive(Clone, Debug)]
pub enum FormError {
    /// The form lacks the field of this name.
    MissingField(String),
    /// The field of this name numbers a line with something that is no
    /// number.
    BadIndex(String),
}

/// Why an order form cannot be read, as plain values.
pub enum FormErrorView {
    MissingField(Seq<char>),
    BadIndex(Seq<char>),
}

impl View for FormError {
    type V = FormErrorView;

    open spec fn view(&self) -> FormErrorView {
        match self {
            FormError::MissingField(name) => FormErrorView::MissingField(name@),
            FormError::BadIndex(name) => FormErrorView::BadIndex(name@),
        }
    }
}

/// The fields of a form as plain values: names and values, in the order
/// of the form.
pub open spec fn fields_of(form: Seq<(String, String)>) -> Seq<(Seq<char>, Seq<char>)> {
    Seq::new(form.len(), |i: int| (form[i].0@, form[i].1@))
}

/// The value of the first field named `name`, if the form has one.
pub open spec fn field(form: Seq<(Seq<char>, Seq<char>)>, name: Seq<char>) -> Option<Seq<char>>
    decreases form.len(),
{
    if form.len() == 0 {
        None
    } else {
        match field(form.drop_last(), name) {
            Some(value) => Some(value),
            None => if form.last().0 == name {
                Some(form.last().1)
            } else {
                None
            },
        }
    }
}

/// How the name of the field with a line's part number begins; the number
/// of the line follows.
pub open spec fn line_marker() -> Seq<char> {
    "items_manifacturer_pn_"@
}

/// The numbers of the lines of a form, each once, in the order in which
/// the form first names them: what follows the marker in the names of the
/// fields that begin with it. Where one of these is no number, the name
/// of the first such field.
pub open spec fn line_numbers(form: Seq<(Seq<char>, Seq<char>)>) -> Result<Seq<i32>, Seq<char>>
    decreases form.len(),
{
    if form.len() == 0 {
        Ok(Seq::<i32>::empty())
    } else {
        match line_numbers(form.drop_last()) {
            Err(name) => Err(name),
            Ok(found) => match without_prefix(form.last().0, line_marker()) {
                None => Ok(found),
                Some(number) => match signed_value(number) {
                    None => Err(form.last().0),
                    Some(n) => if found.contains(n) {
                        Ok(found)
                    } else {
                        Ok(found.push(n))
                    },
                },
            },
        }
    }
}

/// The name of the field that holds `what` of line `n`.
pub open spec fn line_field(what: Seq<char>, n: i32) -> Seq<char> {
    what + signed_decimal(n as int)
}

/// The text of a field, `default` where the form has no such field.
pub open spec fn field_or(
    form: Seq<(Seq<char>, Seq<char>)>,
    name: Seq<char>,
    default: Seq<char>,
) -> Seq<char> {
    match field(form, name) {
        Some(value) => value,
        None => default,
    }
}

/// Line `n` of a form: manufacturer and part number, empty where the form
/// has none; the proposal and the project, with their defaults; and the
/// quantity, 1 where the form gives no number for it. Where the form has
/// no field for the quantity, the name of that field.
pub open spec fn line_of(form: Seq<(Seq<char>, Seq<char>)>, n: i32) -> Result<
    FormItemView,
    Seq<char>,
> {
    match field(form, line_field("items_quantity_"@, n)) {
        None => Err(line_field("items_quantity_"@, n)),
        Some(quantity) => Ok(
            FormItemView {
                manufacturer: field_or(
                    form,
                    line_field("items_manifacturer_"@, n),
                    Seq::<char>::empty(),
                ),
                manufacturer_pn: field_or(
                    form,
                    line_field("items_manifacturer_pn_"@, n),
                    Seq::<char>::empty(),
                ),
                quantity: match signed_value(quantity) {
                    Some(q) => q as int,
                    None => 1,
                },
                proposal: field_or(
                    form,
                    line_field("items_proposal_"@, n),
                    "Elettronica generale"@,
                ),
                project: field_or(form, line_field("items_project_"@, n), "Varie per lab"@),
            },
        ),
    }
}

/// The lines numbered `numbers` of a form, in that order; the name of the
/// first missing quantity field where there is one.
pub open spec fn lines_of(form: Seq<(Seq<char>, Seq<char>)>, numbers: Seq<i32>) -> Result<
    Seq<FormItemView>,
    Seq<char>,
>
    decreases numbers.len(),
{
    if numbers.len() == 0 {
        Ok(Seq::<FormItemView>::empty())
    } else {
        match lines_of(form, numbers.drop_last()) {
            Err(name) => Err(name),
            Ok(lines) => match line_of(form, numbers.last()) {
                Err(name) => Err(name),
                Ok(line) => Ok(lines.push(line)),
            },
        }
    }
}

/// The views of the lines `items`.
pub open spec fn item_views(items: Seq<FormItem>) -> Seq<FormItemView> {
    Seq::new(items.len(), |i: int| items[i]@)
}

/// The value of the first field named `name`, if the form has one.
pub fn lookup(form: &Vec<(String, String)>, name: &str) -> (value: Option<String>)
    ensures
        match value {
            Some(v) => field(fields_of(form@), name@) == Some(v@),
            None => field(fields_of(form@), name@) is None,
        },
{
    let wanted = name.to_owned();
    let mut i: usize = 0;
    while i < form.len()
        invariant
            i <= form.len(),
            wanted@ == name@,
            field(fields_of(form@).take(i as int), name@) is None,
        decreases form.len() - i,
    {
        proof {
            assert(fields_of(form@).take(i + 1).drop_last() =~= fields_of(form@).take(i as int));
        }
        if form[i].0 == wanted {
            proof {
                lemma_field_found(fields_of(form@), name@, i as int);
            }
            return Some(form[i].1.clone());
        }
        i += 1;
    }
    assert(fields_of(form@).take(i as int) =~= fields_of(form@));
    None
}

/// A field found behind fields of other names is the first of its name.
proof fn lemma_field_found(form: Seq<(Seq<char>, Seq<char>)>, name: Seq<char>, i: int)
    requires
        0 <= i < form.len(),
        field(form.take(i), name) is None,
        form[i].0 == name,
    ensures
        field(form, name) == Some(form[i].1),
    decreases form.len() - i,
{
    assert(form.take(i + 1).drop_last() =~= form.take(i));
    assert(field(form.take(i + 1), name) == Some(form[i].1));
    lemma_field_stays(form, name, i + 1);
}

/// A field found among the first fields of a form is found in the form.
proof fn lemma_field_stays(form: Seq<(Seq<char>, Seq<char>)>, name: Seq<char>, n: int)
    requires
        0 <= n <= form.len(),
        field(form.take(n), name) is Some,
    ensures
        field(form, name) == field(form.take(n), name),
    decreases form.len() - n,
{
    if n < form.len() {
        assert(form.take(n + 1).drop_last() =~= form.take(n));
        lemma_field_stays(form, name, n + 1);
    } else {
        assert(form.take(n) =~= form);
    }
}

/// Whether `n` is among `numbers`.
fn has_number(numbers: &Vec<i32>, n: i32) -> (found: bool)
    ensures
        found == numbers@.contains(n),
{
    let mut i: usize = 0;
    while i < numbers.len()
        invariant
            i <= numbers.len(),
            forall|k: int| 0 <= k < i ==> numbers@[k] != n,
        decreases numbers.len() - i,
    {
        if numbers[i] == n {
            return true;
        }
        i += 1;
    }
    false
}

/// Line `n` of a form.
fn read_line(form: &Vec<(String, String)>, n: i32) -> (line: Result<FormItem, String>)
    ensures
        match line {
            Ok(item) => line_of(fields_of(form@), n) == Ok::<FormItemView, Seq<char>>(item@),
            Err(name) => line_of(fields_of(form@), n) == Err::<FormItemView, Seq<char>>(name@),
        },
{
    let number = signed_decimal_string(n);
    let quantity_field = concat("items_quantity_", number.as_str());
    let quantity = match lookup(form, quantity_field.as_str()) {
        Some(text) => match parse_i32(text.as_str()) {
            Some(q) => q,
            None => 1,
        },
        None => {
            return Err(quantity_field);
        },
    };
    let manufacturer = match lookup(form, concat("items_manifacturer_", number.as_str()).as_str()) {
        Some(text) => text,
        None => String::new(),
    };
    let manufacturer_pn = match lookup(
        form,
        concat("items_manifacturer_pn_", number.as_str()).as_str(),
    ) {
        Some(text) => text,
        None => String::new(),
    };
    let proposal = match lookup(form, concat("items_proposal_", number.as_str()).as_str()) {
        Some(text) => text,
        None => String::from_str("Elettronica generale"),
    };
    let project = match lookup(form, concat("items_project_", number.as_str()).as_str()) {
        Some(text) => text,
        None => String::from_str("Varie per lab"),
    };
    Ok(FormItem { manufacturer, manufacturer_pn, quantity, proposal, project })
}

/// What a form says: its three heading fields and its lines, or the
/// error that names the first field that is missing or wrongly numbered.
/// The heading is looked at first, then the numbers of the lines, then the
/// lines.
pub open spec fn form_reading(form: Seq<(Seq<char>, Seq<char>)>) -> Result<
    OrderFormView,
    FormErrorView,
> {
    if field(form, "description"@) is None {
        Err(FormErrorView::MissingField("description"@))
    } else if field(form, "area_division"@) is None {
        Err(FormErrorView::MissingField("area_division"@))
    } else if field(form, "area_sub_area"@) is None {
        Err(FormErrorView::MissingField("area_sub_area"@))
    } else {
        match line_numbers(form) {
            Err(name) => Err(FormErrorView::BadIndex(name)),
            Ok(numbers) => match lines_of(form, numbers) {
                Err(name) => Err(FormErrorView::MissingField(name)),
                Ok(lines) => Ok(
                    OrderFormView {
                        description: field(form, "description"@)->0,
                        area_division: field(form, "area_division"@)->0,
                        area_sub_area: field(form, "area_sub_area"@)->0,
                        items: lines,
                    },
                ),
            },
        }
    }
}

/// What a filled-in order form says.
pub fn read_order_form(form: &Vec<(String, String)>) -> (read: Result<OrderForm, FormError>)
    ensures
        match read {
            Ok(order) => form_reading(fields_of(form@)) == Ok::<OrderFormView, FormErrorView>(
                order@,
            ),
            Err(e) => form_reading(fields_of(form@)) == Err::<OrderFormView, FormErrorView>(e@),
        },
{
    let description = match lookup(form, "description") {
        Some(text) => text,
        None => {
            return Err(FormError::MissingField(String::from_str("description")));
        },
    };
    let area_division = match lookup(form, "area_division") {
        Some(text) => text,
        None => {
            return Err(FormError::MissingField(String::from_str("area_division")));
        },
    };
    let area_sub_area = match lookup(form, "area_sub_area") {
        Some(text) => text,
        None => {
            return Err(FormError::MissingField(String::from_str("area_sub_area")));
        },
    };
    let ghost fields = fields_of(form@);
    let mut numbers: Vec<i32> = Vec::new();
    let mut i: usize = 0;
    while i < form.len()
        invariant
            i <= form.len(),
            fields == fields_of(form@),
            field(fields, "description"@) == Some(description@),
            field(fields, "area_division"@) == Some(area_division@),
            field(fields, "area_sub_area"@) == Some(area_sub_area@),
            line_numbers(fields.take(i as int)) == Ok::<Seq<i32>, Seq<char>>(numbers@),
        decreases form.len() - i,
    {
        proof {
            assert(fields.take(i + 1).drop_last() =~= fields.take(i as int));
            assert(fields.take(i + 1).last() == fields[i as int]);
        }
        match strip_prefix(form[i].0.as_str(), "items_manifacturer_pn_") {
            Some(number) => match parse_i32(number.as_str()) {
                Some(n) => {
                    if !has_number(&numbers, n) {
                        numbers.push(n);
                    }
                },
                None => {
                    proof {
                        lemma_bad_number_stays(fields, i + 1);
                    }
                    return Err(FormError::BadIndex(form[i].0.clone()));
                },
            },
            None => {},
        }
        i += 1;
    }
    assert(fields.take(i as int) =~= fields);
    let mut items: Vec<FormItem> = Vec::new();
    let mut k: usize = 0;
    assert(item_views(items@) =~= Seq::<FormItemView>::empty());
    while k < numbers.len()
        invariant
            k <= numbers.len(),
            fields == fields_of(form@),
            field(fields, "description"@) == Some(description@),
            field(fields, "area_division"@) == Some(area_division@),
            field(fields, "area_sub_area"@) == Some(area_sub_area@),
            line_numbers(fields) == Ok::<Seq<i32>, Seq<char>>(numbers@),
            lines_of(fields, numbers@.take(k as int)) == Ok::<Seq<FormItemView>, Seq<char>>(
                item_views(items@),
            ),
        decreases numbers.len() - k,
    {
        proof {
            assert(numbers@.take(k + 1).drop_last() =~= numbers@.take(k as int));
            assert(numbers@.take(k + 1).last() == numbers@[k as int]);
        }
        let ghost before = items@;
        match read_line(form, numbers[k]) {
            Ok(item) => {
                items.push(item);
                assert(item_views(items@) =~= item_views(before).push(items@.last()@));
            },
            Err(name) => {
                proof {
                    lemma_missing_line_stays(fields, numbers@, k + 1);
                }
                return Err(FormError::MissingField(name));
            },
        }
        k += 1;
    }
    assert(numbers@.take(k as int) =~= numbers@);
    Ok(OrderForm { description, area_division, area_sub_area, items })
}

/// A wrongly numbered field among the first fields of a form is the one
/// that the whole form is refused for.
proof fn lemma_bad_number_stays(form: Seq<(Seq<char>, Seq<char>)>, n: int)
    requires
        0 <= n <= form.len(),
        line_numbers(form.take(n)) is Err,
    ensures
        line_numbers(form) == line_numbers(form.take(n)),
    decreases form.len() - n,
{
    if n < form.len() {
        assert(form.take(n + 1).drop_last() =~= form.take(n));
        lemma_bad_number_stays(form, n + 1);
    } else {
        assert(form.take(n) =~= form);
    }
}

/// A line without quantity among the first lines is the one that the
/// whole form is refused for.
proof fn lemma_missing_line_stays(form: Seq<(Seq<char>, Seq<char>)>, numbers: Seq<i32>, n: int)
    requires
        0 <= n <= numbers.len(),
        lines_of(form, numbers.take(n)) is Err,
    ensures
        lines_of(form, numbers) == lines_of(form, numbers.take(n)),
    decreases numbers.len() - n,
{
    if n < numbers.len() {
        assert(numbers.take(n + 1).drop_last() =~= numbers.take(n));
        lemma_missing_line_stays(form, numbers, n + 1);
    } else {
        assert(numbers.take(n) =~= numbers);
    }
}

/// The texts of `names`.
pub open spec fn texts_of(names: Seq<String>) -> Seq<Seq<char>> {
    Seq::new(names.len(), |i: int| names[i]@)
}

/// The texts `names`, each once, in the order in which they first occur.
pub open spec fn first_occurrences(names: Seq<Seq<char>>) -> Seq<Seq<char>>
    decreases names.len(),
{
    if names.len() == 0 {
        Seq::<Seq<char>>::empty()
    } else {
        let before = first_occurrences(names.drop_last());
        if before.contains(names.last()) {
            before
        } else {
            before.push(names.last())
        }
    }
}

/// `names`, each once, in the order in which they first occur.
pub fn distinct(names: &Vec<String>) -> (once: Vec<String>)
    ensures
        texts_of(once@) == first_occurrences(texts_of(names@)),
{
    let mut once: Vec<String> = Vec::new();
    let mut i: usize = 0;
    assert(texts_of(once@) =~= Seq::<Seq<char>>::empty());
    while i < names.len()
        invariant
            i <= names.len(),
            texts_of(once@) == first_occurrences(texts_of(names@).take(i as int)),
        decreases names.len() - i,
    {
        proof {
            assert(texts_of(names@).take(i + 1).drop_last() =~= texts_of(names@).take(i as int));
            assert(texts_of(names@).take(i + 1).last() == names@[i as int]@);
        }
        let mut known = false;
        let mut k: usize = 0;
        while k < once.len() && !known
            invariant
                k <= once.len(),
                i < names.len(),
                known ==> texts_of(once@).contains(names@[i as int]@),
                !known ==> forall|j: int| 0 <= j < k ==> texts_of(once@)[j] != names@[i as int]@,
            decreases once.len() - k + if known { 0nat } else { 1nat },
        {
            if once[k] == names[i] {
                assert(texts_of(once@)[k as int] == names@[i as int]@);
                known = true;
            } else {
                k += 1;
            }
        }
        if !known {
            let ghost before = once@;
            once.push(names[i].clone());
            assert(texts_of(once@) =~= texts_of(before).push(names@[i as int]@));
        }
        i += 1;
    }
    assert(texts_of(names@).take(i as int) =~= texts_of(names@));
    once
}

/// What the page for a new order offers to choose from: each division and
/// each sub-area of `areas` once, and the proposals and projects as they
/// are.
pub fn new_order_page(
    divisions: &Vec<String>,
    sub_areas: &Vec<String>,
    proposals: Vec<String>,
    projects: Vec<String>,
) -> (page: NewOrderTemplate)
    ensures
        texts_of(page.areas@) == first_occurrences(texts_of(divisions@)),
        texts_of(page.sub_areas@) == first_occurrences(texts_of(sub_areas@)),
        page.proposals == proposals,
        page.projects == projects,
{
    NewOrderTemplate {
        areas: distinct(divisions),
        sub_areas: distinct(sub_areas),
        proposals,
        projects,
    }
}

/// What the page that edits `order` shows.
pub fn edit_order_page(
    order: Order,
    items: Vec<OrderItem>,
    divisions: &Vec<String>,
    sub_areas: &Vec<String>,
    proposals: Vec<String>,
    projects: Vec<String>,
) -> (page: EditOrderTemplate)
    ensures
        page.order == order,
        page.items == items,
        texts_of(page.areas@) == first_occurrences(texts_of(divisions@)),
        texts_of(page.sub_areas@) == first_occurrences(texts_of(sub_areas@)),
        page.proposals == proposals,
        page.projects == projects,
{
    EditOrderTemplate {
        order,
        items,
        areas: distinct(divisions),
        sub_areas: distinct(sub_areas),
        proposals,
        projects,
    }
}

} // verus!
