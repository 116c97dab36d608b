use vstd::prelude::*;

use std::collections::HashMap;

use crate::error::{Error, ErrorView, RequiredField};
use crate::field::{copy_into_array, date_of, decode_text, parse_field, pwsafe_date, text_of, Field};
use crate::identifier::{be_uint, uuid_from_bytes};

verus! {

broadcast use vstd::std_specs::hash::group_hash_axioms;

/// [`Record`] as a value of the specification.
pub ghost struct RecordView {
    pub uuid: u128,
    pub group: Seq<char>,
    pub title: Seq<char>,
    pub username: Seq<char>,
    pub notes: Seq<char>,
    pub password: Seq<char>,
    pub create_time: Option<u32>,
    pub password_mod_time: Option<u32>,
    pub access_time: Option<u32>,
    pub password_expiry_time: Option<u32>,
    pub mod_time: Option<u32>,
    pub url: Seq<char>,
    pub autotype: Seq<char>,
    pub password_history: Seq<char>,
    pub password_policy: Seq<char>,
    pub password_expiry_interval: Seq<u8>,
    pub run_command: Seq<char>,
    pub double_click_action: Seq<u8>,
    pub email: Seq<char>,
    pub protected_entry: u8,
    pub password_symbols: Seq<char>,
    pub shift_double_click_action: Seq<u8>,
    pub password_policy_name: Seq<char>,
    pub keyboard_shortcut: Seq<u8>,
    pub two_factor_key: Seq<u8>,
    pub credit_card_number: Seq<char>,
    pub credit_card_expiration: Seq<char>,
    pub credit_card_verify: Seq<char>,
    pub credit_card_pin: Seq<char>,
    pub qr_code: Seq<char>,
}

/// The record before any field has been read.
pub open spec fn empty_record() -> RecordView {
    RecordView {
        uuid: 0,
        group: Seq::empty(),
        title: Seq::empty(),
        username: Seq::empty(),
        notes: Seq::empty(),
        password: Seq::empty(),
        create_time: None,
        password_mod_time: None,
        access_time: None,
        password_expiry_time: None,
        mod_time: None,
        url: Seq::empty(),
        autotype: Seq::empty(),
        password_history: Seq::empty(),
        password_policy: Seq::empty(),
        password_expiry_interval: seq![0u8, 0u8, 0u8, 0u8],
        run_command: Seq::empty(),
        double_click_action: seq![0u8, 0u8],
        email: Seq::empty(),
        protected_entry: 0,
        password_symbols: Seq::empty(),
        shift_double_click_action: seq![0u8, 0u8],
        password_policy_name: Seq::empty(),
        keyboard_shortcut: seq![0u8, 0u8, 0u8, 0u8],
        two_factor_key: Seq::empty(),
        credit_card_number: Seq::empty(),
        credit_card_expiration: Seq::empty(),
        credit_card_verify: Seq::empty(),
        credit_card_pin: Seq::empty(),
        qr_code: Seq::empty(),
    }
}

/// Whether `t` is the type of a record field that holds text.
pub open spec fn is_text_type(t: u8) -> bool {
    t == 0x02 || t == 0x03 || t == 0x04 || t == 0x05 || t == 0x06 || t == 0x0d || t == 0x0e || t == 0x0f || t == 0x10 || t == 0x12 || t == 0x14 || t == 0x16 || t == 0x18 || t == 0x1c || t == 0x1d || t == 0x1e || t == 0x1f || t == 0x20
}

/// Whether `t` is the type of a record field that holds a timestamp.
pub open spec fn is_date_type(t: u8) -> bool {
    t == 0x07 || t == 0x08 || t == 0x09 || t == 0x0a || t == 0x0c
}

/// Number of bytes kept of a field of type `t` that holds a fixed-size value.
pub open spec fn fixed_len(t: u8) -> int {
    if t == 0x11 || t == 0x19 {
        4
    } else if t == 0x13 || t == 0x17 {
        2
    } else {
        1
    }
}

/// The record `r` with the text attribute of field type `t` set to `s`.
pub open spec fn record_set_text(r: RecordView, t: u8, s: Seq<char>) -> RecordView {
    if t == 0x02 {
        RecordView { group: s, ..r }
    } else if t == 0x03 {
        RecordView { title: s, ..r }
    } else if t == 0x04 {
        RecordView { username: s, ..r }
    } else if t == 0x05 {
        RecordView { notes: s, ..r }
    } else if t == 0x06 {
        RecordView { password: s, ..r }
    } else if t == 0x0d {
        RecordView { url: s, ..r }
    } else if t == 0x0e {
        RecordView { autotype: s, ..r }
    } else if t == 0x0f {
        RecordView { password_history: s, ..r }
    } else if t == 0x10 {
        RecordView { password_policy: s, ..r }
    } else if t == 0x12 {
        RecordView { run_command: s, ..r }
    } else if t == 0x14 {
        RecordView { email: s, ..r }
    } else if t == 0x16 {
        RecordView { password_symbols: s, ..r }
    } else if t == 0x18 {
        RecordView { password_policy_name: s, ..r }
    } else if t == 0x1c {
        RecordView { credit_card_number: s, ..r }
    } else if t == 0x1d {
        RecordView { credit_card_expiration: s, ..r }
    } else if t == 0x1e {
        RecordView { credit_card_verify: s, ..r }
    } else if t == 0x1f {
        RecordView { credit_card_pin: s, ..r }
    } else {
        RecordView { qr_code: s, ..r }
    }
}

/// The record `r` with the timestamp of field type `t` set to `s`.
pub open spec fn record_set_date(r: RecordView, t: u8, s: u32) -> RecordView {
    if t == 0x07 {
        RecordView { create_time: Some(s), ..r }
    } else if t == 0x08 {
        RecordView { password_mod_time: Some(s), ..r }
    } else if t == 0x09 {
        RecordView { access_time: Some(s), ..r }
    } else if t == 0x0a {
        RecordView { password_expiry_time: Some(s), ..r }
    } else {
        RecordView { mod_time: Some(s), ..r }
    }
}

/// The record `r` with the fixed-size attribute of field type `t` set from `d`.
pub open spec fn record_set_fixed(r: RecordView, t: u8, d: Seq<u8>) -> RecordView {
    if t == 0x11 {
        RecordView { password_expiry_interval: d.subrange(0, 4), ..r }
    } else if t == 0x13 {
        RecordView { double_click_action: d.subrange(0, 2), ..r }
    } else if t == 0x17 {
        RecordView { shift_double_click_action: d.subrange(0, 2), ..r }
    } else if t == 0x19 {
        RecordView { keyboard_shortcut: d.subrange(0, 4), ..r }
    } else {
        RecordView { protected_entry: d[0], ..r }
    }
}

/// The record `r` after the field of type `t` with data `d` (not the terminator).
pub open spec fn record_apply(r: RecordView, t: u8, d: Seq<u8>) -> Result<RecordView, ErrorView> {
    if t == 0x01 {
        if d.len() == 16 {
            Ok(RecordView { uuid: be_uint(d) as u128, ..r })
        } else {
            Err(ErrorView::BadFieldLength(t))
        }
    } else if is_text_type(t) {
        match text_of(d, t) {
            Err(e) => Err(e),
            Ok(s) => Ok(record_set_text(r, t, s)),
        }
    } else if is_date_type(t) {
        match date_of(d, t) {
            Err(e) => Err(e),
            Ok(s) => Ok(record_set_date(r, t, s)),
        }
    } else if t == 0x11 || t == 0x13 || t == 0x15 || t == 0x17 || t == 0x19 {
        if d.len() >= fixed_len(t) {
            Ok(record_set_fixed(r, t, d))
        } else {
            Err(ErrorView::BadFieldLength(t))
        }
    } else if t == 0x1b {
        Ok(RecordView { two_factor_key: d, ..r })
    } else if t == 0x0b || t == 0x1a {
        Ok(r)
    } else {
        Err(ErrorView::UnknownRecordFieldType(t))
    }
}

/// Reading the fields of one record of `b` from offset `i`, with record `r`
/// so far and `mac` the data authenticated so far: the record, the offset
/// just past its terminator, and the authenticated data.
pub open spec fn record_run(b: Seq<u8>, i: int, r: RecordView, mac: Seq<u8>) -> Result<
    (RecordView, int, Seq<u8>),
    ErrorView,
>
    decreases b.len() - i,
    when 0 <= i <= b.len()
{
    match parse_field(b.subrange(i, b.len() as int)) {
        None => Err(ErrorView::TruncatedField),
        Some((t, d, n)) => {
            if t == 0xff {
                Ok((r, i + n, mac))
            } else if i + n + 1 >= b.len() {
                Err(ErrorView::UnterminatedRecord)
            } else {
                match record_apply(r, t, d) {
                    Err(e) => Err(e),
                    Ok(r2) => record_run(b, i + n, r2, mac + d),
                }
            }
        },
    }
}

/// The record `r` if it holds every required attribute.
pub open spec fn record_check(r: RecordView) -> Result<RecordView, ErrorView> {
    if r.uuid == 0 {
        Err(ErrorView::MissingRequiredField(RequiredField::Uuid, r.title))
    } else if r.title.len() == 0 {
        Err(ErrorView::MissingRequiredField(RequiredField::Title, r.title))
    } else if r.password.len() == 0 {
        Err(ErrorView::MissingRequiredField(RequiredField::Password, r.title))
    } else {
        Ok(r)
    }
}

/// Whether a record holds every required attribute.
pub open spec fn record_complete(r: RecordView) -> bool {
    r.uuid != 0 && r.title.len() > 0 && r.password.len() > 0
}

/// The record that starts at offset `i` of `b`, checked for its required
/// attributes, the offset just past it, and the authenticated data.
pub open spec fn record_at(b: Seq<u8>, i: int, mac: Seq<u8>) -> Result<
    (RecordView, int, Seq<u8>),
    ErrorView,
> {
    match record_run(b, i, empty_record(), mac) {
        Err(e) => Err(e),
        Ok((r, j, m)) => match record_check(r) {
            Err(e) => Err(e),
            Ok(_) => Ok((r, j, m)),
        },
    }
}

pub proof fn lemma_record_run_advances(b: Seq<u8>, i: int, r: RecordView, mac: Seq<u8>)
    requires
        0 <= i <= b.len(),
    ensures
        record_run(b, i, r, mac) is Ok ==> i < record_run(b, i, r, mac)->Ok_0.1 <= b.len(),
    decreases b.len() - i,
{
    match parse_field(b.subrange(i, b.len() as int)) {
        None => {},
        Some((t, d, n)) => {
            if t != 0xff && i + n + 1 < b.len() {
                match record_apply(r, t, d) {
                    Err(e) => {},
                    Ok(r2) => lemma_record_run_advances(b, i + n, r2, mac + d),
                }
            }
        },
    }
}

/// Reading the records of `b` from offset `i`, with `m` the records so far by
/// identifier and `mac` the data authenticated so far: the records and the
/// authenticated data. A later record replaces an earlier one with its identifier.
pub open spec fn records_run(b: Seq<u8>, i: int, m: Map<u128, RecordView>, mac: Seq<u8>) -> Result<
    (Map<u128, RecordView>, Seq<u8>),
    ErrorView,
>
    decreases b.len() - i,
    when 0 <= i <= b.len()
{
    if i >= b.len() {
        Ok((m, mac))
    } else {
        match record_at(b, i, mac) {
            Err(e) => Err(e),
            Ok((r, j, mac2)) => {
                proof {
                    lemma_record_run_advances(b, i, empty_record(), mac);
                }
                records_run(b, j, m.insert(r.uuid, r), mac2)
            },
        }
    }
}

/// The views of the records of a map.
pub open spec fn records_view(m: Map<u128, Record>) -> Map<u128, RecordView> {
    m.map_values(|r: Record| r@)
}

/// One credential entry.
#[derive(Debug)]
pub struct Record {
    /// Identifier; zero is the nil identifier.
    pub uuid: u128,
    pub group: String,
    pub title: String,
    pub username: String,
    pub notes: String,
    pub password: String,
    /// Seconds since the Unix epoch.
    pub create_time: Option<u32>,
    /// Seconds since the Unix epoch.
    pub password_mod_time: Option<u32>,
    /// Seconds since the Unix epoch.
    pub access_time: Option<u32>,
    /// Seconds since the Unix epoch.
    pub password_expiry_time: Option<u32>,
    /// Seconds since the Unix epoch.
    pub mod_time: Option<u32>,
    pub url: String,
    pub autotype: String,
    pub password_history: String,
    pub password_policy: String,
    pub password_expiry_interval: [u8; 4],
    pub run_command: String,
    pub double_click_action: [u8; 2],
    pub email: String,
    pub protected_entry: u8,
    pub password_symbols: String,
    pub shift_double_click_action: [u8; 2],
    pub password_policy_name: String,
    pub keyboard_shortcut: [u8; 4],
    pub two_factor_key: Vec<u8>,
    pub credit_card_number: String,
    pub credit_card_expiration: String,
    pub credit_card_verify: String,
    pub credit_card_pin: String,
    pub qr_code: String,
}

impl View for Record {
    type V = RecordView;

    open spec fn view(&self) -> RecordView {
        RecordView {
            uuid: self.uuid,
            group: self.group@,
            title: self.title@,
            username: self.username@,
            notes: self.notes@,
            password: self.password@,
            create_time: self.create_time,
            password_mod_time: self.password_mod_time,
            access_time: self.access_time,
            password_expiry_time: self.password_expiry_time,
            mod_time: self.mod_time,
            url: self.url@,
            autotype: self.autotype@,
            password_history: self.password_history@,
            password_policy: self.password_policy@,
            password_expiry_interval: self.password_expiry_interval@,
            run_command: self.run_command@,
            double_click_action: self.double_click_action@,
            email: self.email@,
            protected_entry: self.protected_entry,
            password_symbols: self.password_symbols@,
            shift_double_click_action: self.shift_double_click_action@,
            password_policy_name: self.password_policy_name@,
            keyboard_shortcut: self.keyboard_shortcut@,
            two_factor_key: self.two_factor_key@,
            credit_card_number: self.credit_card_number@,
            credit_card_expiration: self.credit_card_expiration@,
            credit_card_verify: self.credit_card_verify@,
            credit_card_pin: self.credit_card_pin@,
            qr_code: self.qr_code@,
        }
    }
}

impl Record {
    /// A record with no attribute set.
    pub fn empty() -> (r: Record)
        ensures
            r@ == empty_record(),
    {
        let r = Record {
            uuid: 0,
            group: String::new(),
            title: String::new(),
            username: String::new(),
            notes: String::new(),
            password: String::new(),
            create_time: None,
            password_mod_time: None,
            access_time: None,
            password_expiry_time: None,
            mod_time: None,
            url: String::new(),
            autotype: String::new(),
            password_history: String::new(),
            password_policy: String::new(),
            password_expiry_interval: [0u8; 4],
            run_command: String::new(),
            double_click_action: [0u8; 2],
            email: String::new(),
            protected_entry: 0,
            password_symbols: String::new(),
            shift_double_click_action: [0u8; 2],
            password_policy_name: String::new(),
            keyboard_shortcut: [0u8; 4],
            two_factor_key: Vec::new(),
            credit_card_number: String::new(),
            credit_card_expiration: String::new(),
            credit_card_verify: String::new(),
            credit_card_pin: String::new(),
            qr_code: String::new(),
        };
        assert(r@.password_expiry_interval =~= empty_record().password_expiry_interval);
        assert(r@.double_click_action =~= empty_record().double_click_action);
        assert(r@.shift_double_click_action =~= empty_record().shift_double_click_action);
        assert(r@.keyboard_shortcut =~= empty_record().keyboard_shortcut);
        r
    }

    /// Sets the text attribute of field type `t`.
    fn set_text(&mut self, t: u8, s: String)
        requires
            is_text_type(t),
        ensures
            final(self)@ == record_set_text(old(self)@, t, s@),
    {
        if t == 0x02 {
            self.group = s;
        } else if t == 0x03 {
            self.title = s;
        } else if t == 0x04 {
            self.username = s;
        } else if t == 0x05 {
            self.notes = s;
        } else if t == 0x06 {
            self.password = s;
        } else if t == 0x0d {
            self.url = s;
        } else if t == 0x0e {
            self.autotype = s;
        } else if t == 0x0f {
            self.password_history = s;
        } else if t == 0x10 {
            self.password_policy = s;
        } else if t == 0x12 {
            self.run_command = s;
        } else if t == 0x14 {
            self.email = s;
        } else if t == 0x16 {
            self.password_symbols = s;
        } else if t == 0x18 {
            self.password_policy_name = s;
        } else if t == 0x1c {
            self.credit_card_number = s;
        } else if t == 0x1d {
            self.credit_card_expiration = s;
        } else if t == 0x1e {
            self.credit_card_verify = s;
        } else if t == 0x1f {
            self.credit_card_pin = s;
        } else {
            self.qr_code = s;
        }
    }

    /// Sets the timestamp of field type `t`.
    fn set_date(&mut self, t: u8, s: u32)
        requires
            is_date_type(t),
        ensures
            final(self)@ == record_set_date(old(self)@, t, s),
    {
        if t == 0x07 {
            self.create_time = Some(s);
        } else if t == 0x08 {
            self.password_mod_time = Some(s);
        } else if t == 0x09 {
            self.access_time = Some(s);
        } else if t == 0x0a {
            self.password_expiry_time = Some(s);
        } else {
            self.mod_time = Some(s);
        }
    }

    /// Sets the attribute that a field of type `t` with data `data` carries.
    fn apply(&mut self, t: u8, data: &[u8]) -> (r: Result<(), Error>)
        requires
            t != 0xff,
        ensures
            match record_apply(old(self)@, t, data@) {
                Ok(v) => r is Ok && final(self)@ == v,
                Err(e) => r is Err && r->Err_0@ == e,
            },
    {
        if t == 0x01 {
            if data.len() != 16 {
                return Err(Error::BadFieldLength(t));
            }
            self.uuid = uuid_from_bytes(data);
        } else if t == 0x02 || t == 0x03 || t == 0x04 || t == 0x05 || t == 0x06 || t == 0x0d || t == 0x0e || t == 0x0f || t == 0x10 || t == 0x12 || t == 0x14 || t == 0x16 || t == 0x18 || t == 0x1c || t == 0x1d || t == 0x1e || t == 0x1f || t == 0x20 {
            let s = match decode_text(data, t) {
                Ok(s) => s,
                Err(e) => return Err(e),
            };
            self.set_text(t, s);
        } else if t == 0x07 || t == 0x08 || t == 0x09 || t == 0x0a || t == 0x0c {
            let s = match pwsafe_date(data, t) {
                Ok(s) => s,
                Err(e) => return Err(e),
            };
            self.set_date(t, s);
        } else if t == 0x11 || t == 0x19 {
            if data.len() < 4 {
                return Err(Error::BadFieldLength(t));
            }
            let v: [u8; 4] = copy_into_array(&data[0..4]);
            if t == 0x11 {
                self.password_expiry_interval = v;
            } else {
                self.keyboard_shortcut = v;
            }
        } else if t == 0x13 || t == 0x17 {
            if data.len() < 2 {
                return Err(Error::BadFieldLength(t));
            }
            let v: [u8; 2] = copy_into_array(&data[0..2]);
            if t == 0x13 {
                self.double_click_action = v;
            } else {
                self.shift_double_click_action = v;
            }
        } else if t == 0x15 {
            if data.len() < 1 {
                return Err(Error::BadFieldLength(t));
            }
            self.protected_entry = data[0];
        } else if t == 0x1b {
            self.two_factor_key = vstd::slice::slice_to_vec(data);
        } else if t == 0x0b || t == 0x1a {
            // reserved: the data is authenticated and otherwise ignored
        } else {
            return Err(Error::UnknownRecordFieldType(t));
        }
        Ok(())
    }


    /// Parses the record that starts at offset `start` of the decrypted
    /// stream `bytes`, appending the data of every field but the terminator to
    /// `mac`, and checks its required attributes. Returns the record and the
    /// offset just past its terminator.
    pub fn new(bytes: &[u8], start: usize, mac: &mut Vec<u8>) -> (r: Result<(Record, usize), Error>)
        requires
            start <= bytes@.len(),
        ensures
            match record_at(bytes@, start as int, old(mac)@) {
                Ok((v, end, m)) => r is Ok && r->Ok_0.0@ == v && r->Ok_0.1 == end
                    && final(mac)@ == m,
                Err(e) => r is Err && r->Err_0@ == e,
            },
    {
        let ghost mac0 = mac@;
        let mut rec = Record::empty();
        let mut i: usize = start;
        let mut end: usize = start;
        loop
            invariant_except_break
                record_run(bytes@, i as int, rec@, mac@) == record_run(
                    bytes@,
                    start as int,
                    empty_record(),
                    mac0,
                ),
            invariant
                start <= i <= bytes@.len(),
                mac0 == old(mac)@,
            ensures
                record_run(bytes@, start as int, empty_record(), mac0) == Ok::<
                    (RecordView, int, Seq<u8>),
                    ErrorView,
                >((rec@, end as int, mac@)),
            decreases bytes@.len() - i,
        {
            let ghost rest = bytes@.subrange(i as int, bytes@.len() as int);
            let field = match Field::new(&bytes[i..bytes.len()]) {
                Ok(f) => f,
                Err(e) => {
                    assert(parse_field(rest) is None);
                    return Err(e);
                },
            };
            assert(parse_field(rest) is Some);
            let next = i + field.total_size;
            if field.type_id == 0xff {
                end = next;
                break;
            }
            if bytes.len() - next <= 1 {
                return Err(Error::UnterminatedRecord);
            }
            match rec.apply(field.type_id, field.data.as_slice()) {
                Ok(()) => {},
                Err(e) => return Err(e),
            }
            let ghost prev = mac@;
            mac.extend_from_slice(field.data.as_slice());
            assert(mac@ =~= prev + field.data@);
            i = next;
        }
        if rec.uuid == 0 {
            return Err(Error::MissingRequiredField(RequiredField::Uuid, rec.title));
        }
        if rec.title.as_str().is_empty() {
            return Err(Error::MissingRequiredField(RequiredField::Title, rec.title));
        }
        if rec.password.as_str().is_empty() {
            return Err(Error::MissingRequiredField(RequiredField::Password, rec.title));
        }
        Ok((rec, end))
    }

    /// Parses the records of the decrypted stream `bytes` from offset `start`
    /// to its end, appending the authenticated data to `mac`, and collects
    /// them by identifier; a later record replaces an earlier one.
    pub fn new_records(bytes: &[u8], start: usize, mac: &mut Vec<u8>) -> (r: Result<
        HashMap<u128, Record>,
        Error,
    >)
        requires
            start <= bytes@.len(),
        ensures
            match records_run(bytes@, start as int, Map::empty(), old(mac)@) {
                Ok((m, mm)) => r is Ok && records_view(r->Ok_0@) == m && final(mac)@ == mm,
                Err(e) => r is Err && r->Err_0@ == e,
            },
    {
        let ghost mac0 = mac@;
        let mut records: HashMap<u128, Record> = HashMap::new();
        assert(records_view(records@) =~= Map::empty());
        let mut i: usize = start;
        while i < bytes.len()
            invariant
                start <= i <= bytes@.len(),
                mac0 == old(mac)@,
                records_run(bytes@, i as int, records_view(records@), mac@) == records_run(
                    bytes@,
                    start as int,
                    Map::empty(),
                    mac0,
                ),
            decreases bytes@.len() - i,
        {
            let ghost before = records_view(records@);
            proof {
                lemma_record_run_advances(bytes@, i as int, empty_record(), mac@);
            }
            let (record, end) = match Record::new(bytes, i, mac) {
                Ok(v) => v,
                Err(e) => return Err(e),
            };
            let ghost rv = record@;
            records.insert(record.uuid, record);
            assert(records_view(records@) =~= before.insert(rv.uuid, rv));
            i = end;
        }
        Ok(records)
    }
}

} // verus!
