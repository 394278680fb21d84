use vstd::prelude::*;

verus! {

/// One field of an item's detail record.
pub struct DetailField {
    pub id: String,
    /// The store's type tag of the field, such as `OTP`.
    pub field_type: String,
    pub value: Option<String>,
}

/// The fields of one chosen item that can be copied.
pub struct Selection {
    /// The store's identifier of the item.
    pub id: String,
    pub username: Option<String>,
    pub password: Option<String>,
    pub has_otp: bool,
    pub ccnum: Option<String>,
    pub cvv: Option<String>,
    pub expiry: Option<String>,
}

/// What a `Selection` holds, as plain sequences.
pub struct SelectionView {
    pub id: Seq<char>,
    pub username: Option<Seq<char>>,
    pub password: Option<Seq<char>>,
    pub has_otp: bool,
    pub ccnum: Option<Seq<char>>,
    pub cvv: Option<Seq<char>>,
    pub expiry: Option<Seq<char>>,
}

pub open spec fn opt_view(o: Option<String>) -> Option<Seq<char>> {
    match o {
        Some(s) => Some(s@),
        None => None,
    }
}

impl View for Selection {
    type V = SelectionView;

    open spec fn view(&self) -> SelectionView {
        SelectionView {
            id: self.id@,
            username: opt_view(self.username),
            password: opt_view(self.password),
            has_otp: self.has_otp,
            ccnum: opt_view(self.ccnum),
            cvv: opt_view(self.cvv),
            expiry: opt_view(self.expiry),
        }
    }
}

/// One result offered to the host: a title to show and a handle to hand back.
#[derive(Debug)]
pub struct Entry {
    pub title: String,
    pub handle: u64,
}

/// The value of the first field whose identifier is `key`; `None` where there
/// is no such field or it holds no value.
pub open spec fn first_value(fields: Seq<DetailField>, key: Seq<char>) -> Option<Seq<char>>
    decreases fields.len(),
{
    if fields.len() == 0 {
        None
    } else if fields[0].id@ == key {
        opt_view(fields[0].value)
    } else {
        first_value(fields.drop_first(), key)
    }
}

/// Whether some field has the type tag `OTP`.
pub open spec fn has_otp_field(fields: Seq<DetailField>) -> bool {
    exists|j: int| 0 <= j < fields.len() && (#[trigger] fields[j]).field_type@ == "OTP"@
}

/// The selection drawn from an item's detail record.
pub open spec fn selection_of(id: Seq<char>, fields: Seq<DetailField>) -> SelectionView {
    SelectionView {
        id,
        username: first_value(fields, "username"@),
        password: first_value(fields, "password"@),
        has_otp: has_otp_field(fields),
        ccnum: first_value(fields, "ccnum"@),
        cvv: first_value(fields, "cvv"@),
        expiry: first_value(fields, "expiry"@),
    }
}

/// The value of the first field with identifier `key`.
pub fn field_value(fields: &Vec<DetailField>, key: &String) -> (r: Option<String>)
    ensures
        opt_view(r) == first_value(fields@, key@),
{
    let mut i: usize = 0;
    assert(fields@.subrange(0, fields@.len() as int) =~= fields@);
    while i < fields.len()
        invariant
            i <= fields.len(),
            first_value(fields@, key@) == first_value(fields@.subrange(i as int, fields@.len() as int), key@),
        decreases fields.len() - i,
    {
        let ghost rest = fields@.subrange(i as int, fields@.len() as int);
        assert(rest.drop_first() =~= fields@.subrange(i + 1, fields@.len() as int));
        assert(rest[0] == fields@[i as int]);
        if fields[i].id == *key {
            return match &fields[i].value {
                Some(v) => Some(v.clone()),
                None => None,
            };
        }
        i += 1;
    }
    None
}

/// Whether some field has the type tag `OTP`.
pub fn otp_present(fields: &Vec<DetailField>) -> (r: bool)
    ensures
        r == has_otp_field(fields@),
{
    let otp = String::from_str("OTP");
    let mut i: usize = 0;
    while i < fields.len()
        invariant
            i <= fields.len(),
            otp@ == "OTP"@,
            forall|j: int| 0 <= j < i ==> (#[trigger] fields@[j]).field_type@ != "OTP"@,
        decreases fields.len() - i,
    {
        if fields[i].field_type == otp {
            return true;
        }
        i += 1;
    }
    false
}

/// Draws the copyable fields of item `id` from its detail record.
pub fn extract(id: &String, fields: &Vec<DetailField>) -> (r: Selection)
    ensures
        r@ == selection_of(id@, fields@),
{
    Selection {
        id: id.clone(),
        username: field_value(fields, &String::from_str("username")),
        password: field_value(fields, &String::from_str("password")),
        has_otp: otp_present(fields),
        ccnum: field_value(fields, &String::from_str("ccnum")),
        cvv: field_value(fields, &String::from_str("cvv")),
        expiry: field_value(fields, &String::from_str("expiry")),
    }
}

/// The handles of a list of results, in order.
pub open spec fn handles(r: Seq<Entry>) -> Seq<u64> {
    r.map_values(|e: Entry| e.handle)
}

/// The handle of each copyable field, fixed for the host.
pub const USERNAME_SLOT: u64 = 0;
pub const PASSWORD_SLOT: u64 = 1;
pub const OTP_SLOT: u64 = 2;
pub const CCNUM_SLOT: u64 = 3;
pub const CVV_SLOT: u64 = 4;
pub const EXPIRY_SLOT: u64 = 5;

/// `slot` when `present`, else nothing.
pub open spec fn slot_if(present: bool, slot: u64) -> Seq<u64> {
    if present {
        seq![slot]
    } else {
        Seq::empty()
    }
}

/// Holds a value that is not empty.
pub open spec fn filled(o: Option<Seq<char>>) -> bool {
    o matches Some(v) && v.len() > 0
}

/// Whether the held value is there and not empty.
pub fn is_filled(o: &Option<String>) -> (r: bool)
    ensures
        r == filled(opt_view(*o)),
{
    match o {
        Some(v) => !v.as_str().is_empty(),
        None => false,
    }
}

/// The field slots offered for a selection, in their fixed order: username
/// and password where they hold a non-empty value, the one-time password
/// where the item has one, and each card field that holds a value.
pub open spec fn offered_slots(v: SelectionView) -> Seq<u64> {
    slot_if(filled(v.username), USERNAME_SLOT) + slot_if(filled(v.password), PASSWORD_SLOT)
        + slot_if(v.has_otp, OTP_SLOT) + slot_if(v.ccnum.is_some(), CCNUM_SLOT) + slot_if(
        v.cvv.is_some(),
        CVV_SLOT,
    ) + slot_if(v.expiry.is_some(), EXPIRY_SLOT)
}

/// The title shown for a field slot.
pub open spec fn slot_title(slot: u64) -> Seq<char> {
    if slot == USERNAME_SLOT {
        "Username"@
    } else if slot == PASSWORD_SLOT {
        "Password"@
    } else if slot == OTP_SLOT {
        "One-time password"@
    } else if slot == CCNUM_SLOT {
        "Number"@
    } else if slot == CVV_SLOT {
        "CCV"@
    } else {
        "Expiry"@
    }
}

/// Every result is titled after its slot.
pub open spec fn titled_by_slot(r: Seq<Entry>) -> bool {
    forall|k: int| 0 <= k < r.len() ==> (#[trigger] r[k]).title@ == slot_title(r[k].handle)
}

/// Appends the result of one slot when `present`.
fn offer_slot(r: &mut Vec<Entry>, present: bool, title: &str, slot: u64)
    requires
        title@ == slot_title(slot),
        titled_by_slot(old(r)@),
    ensures
        handles(final(r)@) == handles(old(r)@) + slot_if(present, slot),
        titled_by_slot(final(r)@),
{
    if present {
        r.push(Entry { title: String::from_str(title), handle: slot });
    }
    assert(handles(final(r)@) =~= handles(old(r)@) + slot_if(present, slot));
}

/// The results offered while the fields of a selection are on show: one per
/// field that the selection holds, in the fixed slot order.
pub fn display_selection_items(selection: &Selection) -> (r: Vec<Entry>)
    ensures
        handles(r@) == offered_slots(selection@),
        titled_by_slot(r@),
{
    let mut r: Vec<Entry> = Vec::new();
    assert(handles(r@) =~= Seq::<u64>::empty());
    offer_slot(&mut r, is_filled(&selection.username), "Username", USERNAME_SLOT);
    offer_slot(&mut r, is_filled(&selection.password), "Password", PASSWORD_SLOT);
    offer_slot(&mut r, selection.has_otp, "One-time password", OTP_SLOT);
    offer_slot(&mut r, selection.ccnum.is_some(), "Number", CCNUM_SLOT);
    offer_slot(&mut r, selection.cvv.is_some(), "CCV", CVV_SLOT);
    offer_slot(&mut r, selection.expiry.is_some(), "Expiry", EXPIRY_SLOT);
    assert(handles(r@) =~= offered_slots(selection@));
    r
}

/// A value found under `key` is the value of a field with that identifier.
pub proof fn lemma_first_value_present(fields: Seq<DetailField>, key: Seq<char>)
    requires
        first_value(fields, key) is Some,
    ensures
        exists|j: int|
            0 <= j < fields.len() && (#[trigger] fields[j]).id@ == key && opt_view(fields[j].value)
                == first_value(fields, key),
    decreases fields.len(),
{
    if fields[0].id@ == key {
        assert(opt_view(fields[0].value) == first_value(fields, key));
    } else {
        let rest = fields.drop_first();
        lemma_first_value_present(rest, key);
        let j = choose|j: int|
            0 <= j < rest.len() && (#[trigger] rest[j]).id@ == key && opt_view(rest[j].value)
                == first_value(rest, key);
        assert(fields[j + 1] == rest[j]);
    }
}

/// A field slot is offered for an item only where its detail record backs
/// it: the one-time password slot needs a field of type `OTP`, the username
/// and password slots a field with their identifier that holds a non-empty
/// value, and each card slot a field with its identifier that holds a value.
pub proof fn lemma_slots_need_source(id: Seq<char>, fields: Seq<DetailField>)
    ensures
        offered_slots(selection_of(id, fields)).contains(OTP_SLOT) ==> exists|j: int|
            0 <= j < fields.len() && (#[trigger] fields[j]).field_type@ == "OTP"@,
        offered_slots(selection_of(id, fields)).contains(USERNAME_SLOT) ==> has_filled_value(
            fields,
            "username"@,
        ),
        offered_slots(selection_of(id, fields)).contains(PASSWORD_SLOT) ==> has_filled_value(
            fields,
            "password"@,
        ),
        offered_slots(selection_of(id, fields)).contains(CCNUM_SLOT) ==> has_value(fields, "ccnum"@),
        offered_slots(selection_of(id, fields)).contains(CVV_SLOT) ==> has_value(fields, "cvv"@),
        offered_slots(selection_of(id, fields)).contains(EXPIRY_SLOT) ==> has_value(fields, "expiry"@),
{
    let v = selection_of(id, fields);
    let a = slot_if(filled(v.username), USERNAME_SLOT);
    let b = slot_if(filled(v.password), PASSWORD_SLOT);
    let c = slot_if(v.has_otp, OTP_SLOT);
    let d = slot_if(v.ccnum.is_some(), CCNUM_SLOT);
    let e = slot_if(v.cvv.is_some(), CVV_SLOT);
    let f = slot_if(v.expiry.is_some(), EXPIRY_SLOT);
    assert forall|x: u64| #[trigger] offered_slots(v).contains(x) implies slot_offered(v, x) by {
        lemma_concat_contains(a + b + c + d + e, f, x);
        lemma_concat_contains(a + b + c + d, e, x);
        lemma_concat_contains(a + b + c, d, x);
        lemma_concat_contains(a + b, c, x);
        lemma_concat_contains(a, b, x);
    }
    if v.username.is_some() {
        lemma_first_value_present(fields, "username"@);
        let j = choose|j: int|
            0 <= j < fields.len() && (#[trigger] fields[j]).id@ == "username"@ && opt_view(fields[j].value)
                == first_value(fields, "username"@);
        assert(fields[j].id@ == "username"@);
    }
    if v.password.is_some() {
        lemma_first_value_present(fields, "password"@);
        let j = choose|j: int|
            0 <= j < fields.len() && (#[trigger] fields[j]).id@ == "password"@ && opt_view(fields[j].value)
                == first_value(fields, "password"@);
        assert(fields[j].id@ == "password"@);
    }
    if v.ccnum.is_some() {
        lemma_first_value_present(fields, "ccnum"@);
    }
    if v.cvv.is_some() {
        lemma_first_value_present(fields, "cvv"@);
    }
    if v.expiry.is_some() {
        lemma_first_value_present(fields, "expiry"@);
    }
}

/// Whether slot `x` stands for a field that the selection holds.
pub open spec fn slot_offered(v: SelectionView, x: u64) -> bool {
    ||| x == USERNAME_SLOT && filled(v.username)
    ||| x == PASSWORD_SLOT && filled(v.password)
    ||| x == OTP_SLOT && v.has_otp
    ||| x == CCNUM_SLOT && v.ccnum is Some
    ||| x == CVV_SLOT && v.cvv is Some
    ||| x == EXPIRY_SLOT && v.expiry is Some
}

proof fn lemma_concat_contains(a: Seq<u64>, b: Seq<u64>, x: u64)
    ensures
        (a + b).contains(x) ==> a.contains(x) || b.contains(x),
{
    if (a + b).contains(x) {
        let i = choose|i: int| 0 <= i < (a + b).len() && (a + b)[i] == x;
        if i < a.len() {
            assert(a[i] == x);
        } else {
            assert(b[i - a.len()] == x);
        }
    }
}

/// Some field with identifier `key` holds a value.
pub open spec fn has_value(fields: Seq<DetailField>, key: Seq<char>) -> bool {
    exists|j: int| 0 <= j < fields.len() && (#[trigger] fields[j]).id@ == key && fields[j].value is Some
}

/// Some field with identifier `key` holds a non-empty value.
pub open spec fn has_filled_value(fields: Seq<DetailField>, key: Seq<char>) -> bool {
    exists|j: int|
        0 <= j < fields.len() && (#[trigger] fields[j]).id@ == key && filled(opt_view(fields[j].value))
}

} // verus!
