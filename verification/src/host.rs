use vstd::prelude::*;

verus! {

broadcast use vstd::string::group_string_axioms;

/// std's `SystemTime`, carried through as an opaque value.
#[verifier::external_type_specification]
#[verifier::external_body]
pub struct ExSystemTime(std::time::SystemTime);

/// std's `SystemTime::now`. What the clock reads is not stated.
#[verifier::external_body]
fn system_now() -> std::time::SystemTime {
    std::time::SystemTime::now()
}

/// std's `SystemTime::duration_since(UNIX_EPOCH)`, with the error (a time before
/// the epoch) as `None`. Nothing is stated of the duration.
#[verifier::external_body]
fn since_epoch(t: &std::time::SystemTime) -> Option<std::time::Duration> {
    t.duration_since(std::time::UNIX_EPOCH).ok()
}

/// std's `Duration::as_millis`: the whole milliseconds of the duration, which
/// is opaque here; nothing is stated of the number.
#[verifier::external_body]
fn duration_millis(d: &std::time::Duration) -> u128 {
    d.as_millis()
}

/// The timestamp that a clock reading gives: its low 64 bits, or 0 where there is none.
pub fn millis_to_u64(ms: Option<u128>) -> (t: u64)
    ensures
        t == match ms {
            Some(m) => m as u64,
            None => 0u64,
        },
{
    match ms {
        Some(m) => m as u64,
        None => 0,
    }
}

/// The current time in milliseconds since the Unix epoch (0 before the epoch).
pub fn now_ms() -> u64 {
    let now = system_now();
    let reading = match since_epoch(&now) {
        Some(d) => Some(duration_millis(&d)),
        None => None,
    };
    millis_to_u64(reading)
}

/// Whether `c` is a lower-case hexadecimal digit.
pub open spec fn is_lower_hex(c: char) -> bool {
    ('0' as u32 <= c as u32 <= '9' as u32) || ('a' as u32 <= c as u32 <= 'f' as u32)
}

/// Whether `s` is a version-4 UUID in lower-case hyphenated form, such as
/// `67e55044-10b1-426f-9247-bb680e5fe0c8`.
pub open spec fn uuid_v4_text(s: Seq<char>) -> bool {
    &&& s.len() == 36
    &&& forall|i: int|
        0 <= i < 36 ==> if i == 8 || i == 13 || i == 18 || i == 23 {
            s[i] == '-'
        } else {
            is_lower_hex(#[trigger] s[i])
        }
    &&& s[14] == '4'
    &&& (s[19] == '8' || s[19] == '9' || s[19] == 'a' || s[19] == 'b')
}

/// A fresh random item id: `uuid::Uuid::new_v4()` in its `Display` form. The
/// source sets the version nibble to 4 and the variant bits to `10`, and
/// `Display` writes the hyphenated lower-case form; which random bits come is not
/// stated. uuid panics only where the system's random source fails, which no
/// argument here can bring about.
#[verifier::external_body]
pub(crate) fn new_item_id() -> (id: String)
    ensures
        uuid_v4_text(id@),
{
    uuid::Uuid::new_v4().to_string()
}

/// `dir` with the file name `name` appended, as a `/`-separated path.
pub open spec fn path_in(dir: Seq<char>, name: Seq<char>) -> Seq<char> {
    if dir.len() == 0 || dir.last() == '/' {
        dir + name
    } else {
        dir + seq!['/'] + name
    }
}

/// The file name of the saved history.
pub open spec fn history_file_name() -> Seq<char> {
    seq!['h', 'i', 's', 't', 'o', 'r', 'y', '.', 'j', 's', 'o', 'n']
}

/// Where the history is saved inside the data directory `data_dir`.
pub fn history_path(data_dir: &str) -> (path: String)
    ensures
        path@ == path_in(data_dir@, history_file_name()),
{
    let mut path = String::from_str(data_dir);
    let n = data_dir.unicode_len();
    if n > 0 && data_dir.get_char(n - 1) != '/' {
        path.append("/");
        proof {
            reveal_strlit("/");
        }
    }
    path.append("history.json");
    proof {
        reveal_strlit("history.json");
        assert("history.json"@ =~= history_file_name());
    }
    path
}

} // verus!
