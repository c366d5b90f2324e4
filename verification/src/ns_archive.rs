use crate::error::{NsArchiveError, NsErrorView};
use vstd::prelude::*;
use vstd::string::StrSliceExecFns;

verus! {

/// One node of the raw structured value tree the container's document entry
/// decodes to: scalars, object references, ordered arrays and keyed records.
/// Real-valued fields are carried in eight-bit unit-interval fixed point
/// (255 is 1.0), which is how the renderer consumes them.
#[derive(Debug)]
pub enum NsValue {
    Null,
    Boolean(bool),
    Integer(u64),
    Real(u8),
    Text(String),
    Uid(usize),
    Array(Vec<NsValue>),
    Dict(Vec<(String, NsValue)>),
}

/// A keyed archive: the flat object table and the top-level record whose
/// `root` entry points at the document.
#[derive(Debug)]
pub struct NsKeyedArchive {
    pub objects: Vec<NsValue>,
    pub top: Vec<(String, NsValue)>,
}

/// Character-wise equality of two string slices.
pub fn str_eq(a: &str, b: &str) -> (r: bool)
    ensures
        r == (a@ == b@),
{
    let la = a.unicode_len();
    let lb = b.unicode_len();
    if la != lb {
        return false;
    }
    let mut i: usize = 0;
    while i < la
        invariant
            i <= la,
            la == a@.len(),
            lb == b@.len(),
            la == lb,
            forall|j: int| 0 <= j < i ==> a@[j] == b@[j],
        decreases la - i,
    {
        if a.get_char(i) != b.get_char(i) {
            return false;
        }
        i = i + 1;
    }
    proof {
        assert(a@ =~= b@);
    }
    true
}

/// First value stored under `key` at or after index `i`.
pub open spec fn spec_lookup_from(
    entries: Seq<(String, NsValue)>,
    key: Seq<char>,
    i: int,
) -> Option<NsValue>
    decreases entries.len() - i,
{
    if i < 0 || i >= entries.len() {
        Option::None
    } else if entries[i].0@ == key {
        Option::Some(entries[i].1)
    } else {
        spec_lookup_from(entries, key, i + 1)
    }
}

/// First value stored under `key` in a record, if any.
pub open spec fn spec_lookup(entries: Seq<(String, NsValue)>, key: Seq<char>) -> Option<NsValue> {
    spec_lookup_from(entries, key, 0)
}

/// Linear search of a record for a key.
fn lookup<'a>(entries: &'a Vec<(String, NsValue)>, key: &str) -> (r: Option<&'a NsValue>)
    ensures
        match r {
            Option::Some(v) => spec_lookup(entries@, key@) == Option::Some(*v),
            Option::None => spec_lookup(entries@, key@) is None,
        },
{
    let n = entries.len();
    let mut i: usize = 0;
    while i < n
        invariant
            i <= n,
            n == entries@.len(),
            spec_lookup_from(entries@, key@, i as int) == spec_lookup(entries@, key@),
        decreases n - i,
    {
        if str_eq(entries[i].0.as_str(), key) {
            return Some(&entries[i].1);
        }
        i = i + 1;
    }
    None
}

/// A reference value resolved through the object table; scalars and inline
/// containers stand for themselves, and a dangling reference is a type
/// mismatch.
pub open spec fn spec_resolve(objects: Seq<NsValue>, v: NsValue) -> Result<NsValue, NsErrorView> {
    match v {
        NsValue::Uid(i) => if i < objects.len() {
            Result::Ok(objects[i as int])
        } else {
            Result::Err(NsErrorView::TypeMismatch)
        },
        _ => Result::Ok(v),
    }
}

/// The serialization's null placeholder: an explicit null, or the reserved
/// `$null` marker string of keyed archives.
pub open spec fn spec_is_null(v: NsValue) -> bool {
    ||| v is Null
    ||| (v matches NsValue::Text(s) && s@ == "$null"@)
}

/// Value of `key` in `dict`, resolved through the object table: a missing
/// key names itself in the error.
pub open spec fn spec_field(
    nka: NsKeyedArchive,
    dict: Seq<(String, NsValue)>,
    key: Seq<char>,
) -> Result<NsValue, NsErrorView> {
    match spec_lookup(dict, key) {
        Option::None => Result::Err(NsErrorView::MissingKey(key)),
        Option::Some(v) => spec_resolve(nka.objects@, v),
    }
}

/// Required boolean at `key`.
pub open spec fn spec_decode_bool(
    nka: NsKeyedArchive,
    dict: Seq<(String, NsValue)>,
    key: Seq<char>,
) -> Result<bool, NsErrorView> {
    match spec_field(nka, dict, key) {
        Result::Err(e) => Result::Err(e),
        Result::Ok(v) => match v {
            NsValue::Boolean(b) => Result::Ok(b),
            _ => Result::Err(NsErrorView::TypeMismatch),
        },
    }
}

/// Required unsigned integer at `key`.
pub open spec fn spec_decode_u64(
    nka: NsKeyedArchive,
    dict: Seq<(String, NsValue)>,
    key: Seq<char>,
) -> Result<u64, NsErrorView> {
    match spec_field(nka, dict, key) {
        Result::Err(e) => Result::Err(e),
        Result::Ok(v) => match v {
            NsValue::Integer(n) => Result::Ok(n),
            _ => Result::Err(NsErrorView::TypeMismatch),
        },
    }
}

/// Required unsigned integer at `key`, narrowed to 32 bits.
pub open spec fn spec_decode_u32(
    nka: NsKeyedArchive,
    dict: Seq<(String, NsValue)>,
    key: Seq<char>,
) -> Result<u32, NsErrorView> {
    match spec_decode_u64(nka, dict, key) {
        Result::Err(e) => Result::Err(e),
        Result::Ok(n) => if n <= u32::MAX {
            Result::Ok(n as u32)
        } else {
            Result::Err(NsErrorView::TypeMismatch)
        },
    }
}

/// Required unit-interval value at `key`, in 1/255 steps.
pub open spec fn spec_decode_unit(
    nka: NsKeyedArchive,
    dict: Seq<(String, NsValue)>,
    key: Seq<char>,
) -> Result<u8, NsErrorView> {
    match spec_field(nka, dict, key) {
        Result::Err(e) => Result::Err(e),
        Result::Ok(v) => match v {
            NsValue::Real(x) => Result::Ok(x),
            _ => Result::Err(NsErrorView::TypeMismatch),
        },
    }
}

/// Required text at `key`.
pub open spec fn spec_decode_text(
    nka: NsKeyedArchive,
    dict: Seq<(String, NsValue)>,
    key: Seq<char>,
) -> Result<Seq<char>, NsErrorView> {
    match spec_field(nka, dict, key) {
        Result::Err(e) => Result::Err(e),
        Result::Ok(v) => match v {
            NsValue::Text(s) => Result::Ok(s@),
            _ => Result::Err(NsErrorView::TypeMismatch),
        },
    }
}

/// Optional text at `key`: a missing key or the null placeholder is absence,
/// not an error.
pub open spec fn spec_decode_opt_text(
    nka: NsKeyedArchive,
    dict: Seq<(String, NsValue)>,
    key: Seq<char>,
) -> Result<Option<Seq<char>>, NsErrorView> {
    match spec_lookup(dict, key) {
        Option::None => Result::Ok(Option::None),
        Option::Some(raw) => match spec_resolve(nka.objects@, raw) {
            Result::Err(e) => Result::Err(e),
            Result::Ok(v) => if spec_is_null(v) {
                Result::Ok(Option::None)
            } else {
                match v {
                    NsValue::Text(s) => Result::Ok(Option::Some(s@)),
                    _ => Result::Err(NsErrorView::TypeMismatch),
                }
            },
        },
    }
}

/// Required record at `key`.
pub open spec fn spec_decode_dict(
    nka: NsKeyedArchive,
    dict: Seq<(String, NsValue)>,
    key: Seq<char>,
) -> Result<Seq<(String, NsValue)>, NsErrorView> {
    match spec_field(nka, dict, key) {
        Result::Err(e) => Result::Err(e),
        Result::Ok(v) => match v {
            NsValue::Dict(d) => Result::Ok(d@),
            _ => Result::Err(NsErrorView::TypeMismatch),
        },
    }
}

/// Class tag of a record: its `$class` reference must resolve to a class
/// record whose `$classname` holds the tag.
pub open spec fn spec_class_name(
    nka: NsKeyedArchive,
    dict: Seq<(String, NsValue)>,
) -> Result<Seq<char>, NsErrorView> {
    match spec_decode_dict(nka, dict, "$class"@) {
        Result::Err(e) => Result::Err(e),
        Result::Ok(class_dict) => spec_decode_text(nka, class_dict, "$classname"@),
    }
}

/// A value resolved through the object table that must be a record.
pub open spec fn spec_as_dict(nka: NsKeyedArchive, v: NsValue) -> Result<
    Seq<(String, NsValue)>,
    NsErrorView,
> {
    match spec_resolve(nka.objects@, v) {
        Result::Err(e) => Result::Err(e),
        Result::Ok(rv) => match rv {
            NsValue::Dict(d) => Result::Ok(d@),
            _ => Result::Err(NsErrorView::TypeMismatch),
        },
    }
}

/// Resolves `val` and requires it to be a record.
pub fn as_dict<'a>(nka: &'a NsKeyedArchive, val: &'a NsValue) -> (r: Result<
    &'a Vec<(String, NsValue)>,
    NsArchiveError,
>)
    ensures
        match r {
            Result::Ok(d) => spec_as_dict(*nka, *val) == Result::Ok::<
                Seq<(String, NsValue)>,
                NsErrorView,
            >(d@),
            Result::Err(e) => spec_as_dict(*nka, *val) == Result::Err::<
                Seq<(String, NsValue)>,
                NsErrorView,
            >(e@),
        },
{
    match nka.resolve(val) {
        Err(e) => Err(e),
        Ok(NsValue::Dict(d)) => Ok(d),
        Ok(_) => Err(NsArchiveError::TypeMismatch),
    }
}

impl NsKeyedArchive {
    /// Resolves a value through the object table.
    pub fn resolve<'a>(&'a self, v: &'a NsValue) -> (r: Result<&'a NsValue, NsArchiveError>)
        ensures
            match r {
                Result::Ok(rv) => spec_resolve(self.objects@, *v) == Result::Ok::<
                    NsValue,
                    NsErrorView,
                >(*rv),
                Result::Err(e) => spec_resolve(self.objects@, *v) == Result::Err::<
                    NsValue,
                    NsErrorView,
                >(e@),
            },
    {
        match v {
            NsValue::Uid(i) => {
                if *i < self.objects.len() {
                    Ok(&self.objects[*i])
                } else {
                    Err(NsArchiveError::TypeMismatch)
                }
            },
            _ => Ok(v),
        }
    }

    /// Looks `key` up in `dict` and resolves the stored value.
    pub fn field<'a>(&'a self, dict: &'a Vec<(String, NsValue)>, key: &str) -> (r: Result<
        &'a NsValue,
        NsArchiveError,
    >)
        ensures
            match r {
                Result::Ok(v) => spec_field(*self, dict@, key@) == Result::Ok::<
                    NsValue,
                    NsErrorView,
                >(*v),
                Result::Err(e) => spec_field(*self, dict@, key@) == Result::Err::<
                    NsValue,
                    NsErrorView,
                >(e@),
            },
    {
        match lookup(dict, key) {
            None => Err(NsArchiveError::MissingKey(key.to_owned())),
            Some(v) => self.resolve(v),
        }
    }

    /// Required boolean at `key`.
    pub fn decode_bool(&self, dict: &Vec<(String, NsValue)>, key: &str) -> (r: Result<
        bool,
        NsArchiveError,
    >)
        ensures
            match r {
                Result::Ok(b) => spec_decode_bool(*self, dict@, key@) == Result::Ok::<
                    bool,
                    NsErrorView,
                >(b),
                Result::Err(e) => spec_decode_bool(*self, dict@, key@) == Result::Err::<
                    bool,
                    NsErrorView,
                >(e@),
            },
    {
        match self.field(dict, key) {
            Err(e) => Err(e),
            Ok(NsValue::Boolean(b)) => Ok(*b),
            Ok(_) => Err(NsArchiveError::TypeMismatch),
        }
    }

    /// Required unsigned integer at `key`.
    pub fn decode_u64(&self, dict: &Vec<(String, NsValue)>, key: &str) -> (r: Result<
        u64,
        NsArchiveError,
    >)
        ensures
            match r {
                Result::Ok(n) => spec_decode_u64(*self, dict@, key@) == Result::Ok::<
                    u64,
                    NsErrorView,
                >(n),
                Result::Err(e) => spec_decode_u64(*self, dict@, key@) == Result::Err::<
                    u64,
                    NsErrorView,
                >(e@),
            },
    {
        match self.field(dict, key) {
            Err(e) => Err(e),
            Ok(NsValue::Integer(n)) => Ok(*n),
            Ok(_) => Err(NsArchiveError::TypeMismatch),
        }
    }

    /// Required unsigned integer at `key`, narrowed to 32 bits.
    pub fn decode_u32(&self, dict: &Vec<(String, NsValue)>, key: &str) -> (r: Result<
        u32,
        NsArchiveError,
    >)
        ensures
            match r {
                Result::Ok(n) => spec_decode_u32(*self, dict@, key@) == Result::Ok::<
                    u32,
                    NsErrorView,
                >(n),
                Result::Err(e) => spec_decode_u32(*self, dict@, key@) == Result::Err::<
                    u32,
                    NsErrorView,
                >(e@),
            },
    {
        match self.decode_u64(dict, key) {
            Err(e) => Err(e),
            Ok(n) => {
                if n <= u32::MAX as u64 {
                    Ok(n as u32)
                } else {
                    Err(NsArchiveError::TypeMismatch)
                }
            },
        }
    }

    /// Required unit-interval value at `key`, in 1/255 steps.
    pub fn decode_unit(&self, dict: &Vec<(String, NsValue)>, key: &str) -> (r: Result<
        u8,
        NsArchiveError,
    >)
        ensures
            match r {
                Result::Ok(x) => spec_decode_unit(*self, dict@, key@) == Result::Ok::<
                    u8,
                    NsErrorView,
                >(x),
                Result::Err(e) => spec_decode_unit(*self, dict@, key@) == Result::Err::<
                    u8,
                    NsErrorView,
                >(e@),
            },
    {
        match self.field(dict, key) {
            Err(e) => Err(e),
            Ok(NsValue::Real(x)) => Ok(*x),
            Ok(_) => Err(NsArchiveError::TypeMismatch),
        }
    }

    /// Required text at `key`.
    pub fn decode_text(&self, dict: &Vec<(String, NsValue)>, key: &str) -> (r: Result<
        String,
        NsArchiveError,
    >)
        ensures
            match r {
                Result::Ok(s) => spec_decode_text(*self, dict@, key@) == Result::Ok::<
                    Seq<char>,
                    NsErrorView,
                >(s@),
                Result::Err(e) => spec_decode_text(*self, dict@, key@) == Result::Err::<
                    Seq<char>,
                    NsErrorView,
                >(e@),
            },
    {
        match self.field(dict, key) {
            Err(e) => Err(e),
            Ok(NsValue::Text(s)) => Ok(s.clone()),
            Ok(_) => Err(NsArchiveError::TypeMismatch),
        }
    }

    /// Optional text at `key`: a missing key or the null placeholder is
    /// absence, not an error.
    pub fn decode_opt_text(&self, dict: &Vec<(String, NsValue)>, key: &str) -> (r: Result<
        Option<String>,
        NsArchiveError,
    >)
        ensures
            match r {
                Result::Ok(o) => spec_decode_opt_text(*self, dict@, key@) == Result::Ok::<
                    Option<Seq<char>>,
                    NsErrorView,
                >(match o {
                    Option::Some(s) => Option::Some(s@),
                    Option::None => Option::None,
                }),
                Result::Err(e) => spec_decode_opt_text(*self, dict@, key@) == Result::Err::<
                    Option<Seq<char>>,
                    NsErrorView,
                >(e@),
            },
    {
        match lookup(&dict, key) {
            None => Ok(None),
            Some(raw) => {
                match self.resolve(raw) {
                    Err(e) => Err(e),
                    Ok(v) => {
                        let null = match v {
                            NsValue::Null => true,
                            NsValue::Text(s) => str_eq(s.as_str(), "$null"),
                            _ => false,
                        };
                        if null {
                            Ok(None)
                        } else {
                            match v {
                                NsValue::Text(s) => Ok(Some(s.clone())),
                                _ => Err(NsArchiveError::TypeMismatch),
                            }
                        }
                    },
                }
            },
        }
    }

    /// Required record at `key`.
    pub fn decode_dict<'a>(&'a self, dict: &'a Vec<(String, NsValue)>, key: &str) -> (r: Result<
        &'a Vec<(String, NsValue)>,
        NsArchiveError,
    >)
        ensures
            match r {
                Result::Ok(d) => spec_decode_dict(*self, dict@, key@) == Result::Ok::<
                    Seq<(String, NsValue)>,
                    NsErrorView,
                >(d@),
                Result::Err(e) => spec_decode_dict(*self, dict@, key@) == Result::Err::<
                    Seq<(String, NsValue)>,
                    NsErrorView,
                >(e@),
            },
    {
        match self.field(dict, key) {
            Err(e) => Err(e),
            Ok(NsValue::Dict(d)) => Ok(d),
            Ok(_) => Err(NsArchiveError::TypeMismatch),
        }
    }

    /// Class tag of a record, read through its `$class` reference.
    pub fn class_name(&self, dict: &Vec<(String, NsValue)>) -> (r: Result<String, NsArchiveError>)
        ensures
            match r {
                Result::Ok(s) => spec_class_name(*self, dict@) == Result::Ok::<
                    Seq<char>,
                    NsErrorView,
                >(s@),
                Result::Err(e) => spec_class_name(*self, dict@) == Result::Err::<
                    Seq<char>,
                    NsErrorView,
                >(e@),
            },
    {
        match self.decode_dict(dict, "$class") {
            Err(e) => Err(e),
            Ok(class_dict) => self.decode_text(class_dict, "$classname"),
        }
    }
}

} // verus!
