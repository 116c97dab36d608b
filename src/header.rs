use vstd::prelude::*;

use crate::error::{Error, ErrorView};
use crate::field::{copy_into_array, date_of, decode_text, parse_field, pwsafe_date, text_of, Field};

verus! {

/// [`Header`] as a value of the specification.
pub ghost struct HeaderView {
    pub version: Seq<u8>,
    pub uuid: Seq<u8>,
    pub preferences: Seq<char>,
    pub tree_display_status: Seq<char>,
    pub last_save: Option<u32>,
    pub last_save_by: Seq<char>,
    pub last_save_user: Seq<char>,
    pub last_save_host: Seq<char>,
    pub name: Seq<char>,
    pub description: Seq<char>,
    pub filters: Seq<char>,
    pub recently_used: Seq<char>,
    pub password_policy: Seq<char>,
    pub empty_groups: Seq<char>,
    pub yubico: Seq<char>,
    pub last_master_password_update: Option<u32>,
}

/// The header before any field has been read.
pub open spec fn empty_header() -> HeaderView {
    HeaderView {
        version: seq![0u8, 0u8],
        uuid: Seq::new(16, |i: int| 0u8),
        preferences: Seq::empty(),
        tree_display_status: Seq::empty(),
        last_save: None,
        last_save_by: Seq::empty(),
        last_save_user: Seq::empty(),
        last_save_host: Seq::empty(),
        name: Seq::empty(),
        description: Seq::empty(),
        filters: Seq::empty(),
        recently_used: Seq::empty(),
        password_policy: Seq::empty(),
        empty_groups: Seq::empty(),
        yubico: Seq::empty(),
        last_master_password_update: None,
    }
}

/// The header `h` after the field of type `t` with data `d` (not the terminator).
pub open spec fn header_apply(h: HeaderView, t: u8, d: Seq<u8>) -> Result<HeaderView, ErrorView> {
    if t == 0x00 {
        if d.len() == 2 {
            Ok(HeaderView { version: d, ..h })
        } else {
            Err(ErrorView::BadFieldLength(t))
        }
    } else if t == 0x01 {
        if d.len() == 16 {
            Ok(HeaderView { uuid: d, ..h })
        } else {
            Err(ErrorView::BadFieldLength(t))
        }
    } else if t == 0x04 || t == 0x13 {
        match date_of(d, t) {
            Err(e) => Err(e),
            Ok(s) => if t == 0x04 {
                Ok(HeaderView { last_save: Some(s), ..h })
            } else {
                Ok(HeaderView { last_master_password_update: Some(s), ..h })
            },
        }
    } else if t == 0x05 {
        Ok(h)
    } else if 0x02 <= t <= 0x12 && !(0x0c <= t <= 0x0e) {
        match text_of(d, t) {
            Err(e) => Err(e),
            Ok(s) => Ok(header_set_text(h, t, s)),
        }
    } else {
        Err(ErrorView::UnknownHeaderFieldType)
    }
}

/// The header `h` with the text attribute of field type `t` set to `s`.
pub open spec fn header_set_text(h: HeaderView, t: u8, s: Seq<char>) -> HeaderView {
    if t == 0x02 {
        HeaderView { preferences: s, ..h }
    } else if t == 0x03 {
        HeaderView { tree_display_status: s, ..h }
    } else if t == 0x06 {
        HeaderView { last_save_by: s, ..h }
    } else if t == 0x07 {
        HeaderView { last_save_user: s, ..h }
    } else if t == 0x08 {
        HeaderView { last_save_host: s, ..h }
    } else if t == 0x09 {
        HeaderView { name: s, ..h }
    } else if t == 0x0a {
        HeaderView { description: s, ..h }
    } else if t == 0x0b {
        HeaderView { filters: s, ..h }
    } else if t == 0x0f {
        HeaderView { recently_used: s, ..h }
    } else if t == 0x10 {
        HeaderView { password_policy: s, ..h }
    } else if t == 0x11 {
        HeaderView { empty_groups: s, ..h }
    } else {
        HeaderView { yubico: s, ..h }
    }
}

/// Reading the header fields of `b` from offset `i`, with header `h` so far
/// and `mac` the data authenticated so far: the header, the offset just past
/// its terminator, and the authenticated data.
pub open spec fn header_run(b: Seq<u8>, i: int, h: HeaderView, mac: Seq<u8>) -> Result<
    (HeaderView, int, Seq<u8>),
    ErrorView,
>
    decreases b.len() - i,
    when 0 <= i <= b.len()
{
    match parse_field(b.subrange(i, b.len() as int)) {
        None => Err(ErrorView::TruncatedField),
        Some((t, d, n)) => {
            if t == 0xff {
                Ok((h, i + n, mac))
            } else if i + n + 1 >= b.len() {
                Err(ErrorView::UnterminatedHeader)
            } else {
                match header_apply(h, t, d) {
                    Err(e) => Err(e),
                    Ok(h2) => header_run(b, i + n, h2, mac + d),
                }
            }
        },
    }
}

/// Attributes of the database as a whole.
#[derive(Debug)]
pub struct Header {
    pub version: [u8; 2],
    pub uuid: [u8; 16],
    pub preferences: String,
    pub tree_display_status: String,
    /// Seconds since the Unix epoch.
    pub last_save: Option<u32>,
    pub last_save_by: String,
    pub last_save_user: String,
    pub last_save_host: String,
    pub name: String,
    pub description: String,
    pub filters: String,
    pub recently_used: String,
    pub password_policy: String,
    pub empty_groups: String,
    pub yubico: String,
    /// Seconds since the Unix epoch.
    pub last_master_password_update: Option<u32>,
}

impl View for Header {
    type V = HeaderView;

    open spec fn view(&self) -> HeaderView {
        HeaderView {
            version: self.version@,
            uuid: self.uuid@,
            preferences: self.preferences@,
            tree_display_status: self.tree_display_status@,
            last_save: self.last_save,
            last_save_by: self.last_save_by@,
            last_save_user: self.last_save_user@,
            last_save_host: self.last_save_host@,
            name: self.name@,
            description: self.description@,
            filters: self.filters@,
            recently_used: self.recently_used@,
            password_policy: self.password_policy@,
            empty_groups: self.empty_groups@,
            yubico: self.yubico@,
            last_master_password_update: self.last_master_password_update,
        }
    }
}

impl Header {
    /// A header with no attribute set.
    pub fn empty() -> (h: Header)
        ensures
            h@ == empty_header(),
    {
        let h = Header {
            version: [0u8; 2],
            uuid: [0u8; 16],
            preferences: String::new(),
            tree_display_status: String::new(),
            last_save: None,
            last_save_by: String::new(),
            last_save_user: String::new(),
            last_save_host: String::new(),
            name: String::new(),
            description: String::new(),
            filters: String::new(),
            recently_used: String::new(),
            password_policy: String::new(),
            empty_groups: String::new(),
            yubico: String::new(),
            last_master_password_update: None,
        };
        assert(h@.version =~= empty_header().version);
        assert(h@.uuid =~= empty_header().uuid);
        h
    }

    /// Sets the attribute that a field of type `t` with data `data` carries.
    fn apply(&mut self, t: u8, data: &[u8]) -> (r: Result<(), Error>)
        requires
            t != 0xff,
        ensures
            match header_apply(old(self)@, t, data@) {
                Ok(h) => r is Ok && final(self)@ == h,
                Err(e) => r is Err && r->Err_0@ == e,
            },
    {
        if t == 0x00 {
            if data.len() != 2 {
                return Err(Error::BadFieldLength(t));
            }
            self.version = copy_into_array(data);
        } else if t == 0x01 {
            if data.len() != 16 {
                return Err(Error::BadFieldLength(t));
            }
            self.uuid = copy_into_array(data);
        } else if t == 0x04 || t == 0x13 {
            let s = match pwsafe_date(data, t) {
                Ok(s) => s,
                Err(e) => return Err(e),
            };
            if t == 0x04 {
                self.last_save = Some(s);
            } else {
                self.last_master_password_update = Some(s);
            }
        } else if t == 0x05 {
            // deprecated: the data is authenticated and otherwise ignored
        } else if 0x02 <= t && t <= 0x12 && !(0x0c <= t && t <= 0x0e) {
            let s = match decode_text(data, t) {
                Ok(s) => s,
                Err(e) => return Err(e),
            };
            if t == 0x02 {
                self.preferences = s;
            } else if t == 0x03 {
                self.tree_display_status = s;
            } else if t == 0x06 {
                self.last_save_by = s;
            } else if t == 0x07 {
                self.last_save_user = s;
            } else if t == 0x08 {
                self.last_save_host = s;
            } else if t == 0x09 {
                self.name = s;
            } else if t == 0x0a {
                self.description = s;
            } else if t == 0x0b {
                self.filters = s;
            } else if t == 0x0f {
                self.recently_used = s;
            } else if t == 0x10 {
                self.password_policy = s;
            } else if t == 0x11 {
                self.empty_groups = s;
            } else {
                self.yubico = s;
            }
        } else {
            return Err(Error::UnknownHeaderFieldType);
        }
        Ok(())
    }

    /// Parses the header at the start of the decrypted stream `bytes`,
    /// appending the data of every field but the terminator to `mac`.
    /// Returns the header and the offset where the records start.
    pub fn new(bytes: &[u8], mac: &mut Vec<u8>) -> (r: Result<(Header, usize), Error>)
        ensures
            match header_run(bytes@, 0, empty_header(), old(mac)@) {
                Ok((h, end, m)) => r is Ok && r->Ok_0.0@ == h && r->Ok_0.1 == end
                    && final(mac)@ == m,
                Err(e) => r is Err && r->Err_0@ == e,
            },
    {
        let ghost mac0 = mac@;
        let mut hdr = Header::empty();
        let mut i: usize = 0;
        loop
            invariant
                i <= bytes@.len(),
                mac0 == old(mac)@,
                header_run(bytes@, i as int, hdr@, mac@) == header_run(
                    bytes@,
                    0,
                    empty_header(),
                    mac0,
                ),
            decreases bytes@.len() - i,
        {
            let ghost rest = bytes@.subrange(i as int, bytes@.len() as int);
            let field = match Field::new(&bytes[i..bytes.len()]) {
                Ok(f) => f,
                Err(e) => {
                    assert(parse_field(rest) is None);
                    return Err(e);
                },
            };
            assert(parse_field(rest) is Some);
            let next = i + field.total_size;
            if field.type_id == 0xff {
                return Ok((hdr, next));
            }
            if bytes.len() - next <= 1 {
                return Err(Error::UnterminatedHeader);
            }
            match hdr.apply(field.type_id, field.data.as_slice()) {
                Ok(()) => {},
                Err(e) => return Err(e),
            }
            let ghost prev = mac@;
            mac.extend_from_slice(field.data.as_slice());
            assert(mac@ =~= prev + field.data@);
            i = next;
        }
    }
}

} // verus!
