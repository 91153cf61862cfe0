//! Physical SQLite database images, read page by page.
use vstd::prelude::*;

use crate::error::{invalid, invalid_command, CommandError};
use crate::number::{decimal, show_u64};
use crate::text::{cat3, cat5};

verus! {

/// The size in bytes of every page that is stored or compared.
pub const PAGESIZE: usize = 4096;

/// The bytes that a SQLite database starts with.
pub open spec fn sqlite_magic() -> Seq<u8> {
    seq![83, 81, 76, 105, 116, 101, 32, 102, 111, 114, 109, 97, 116, 32, 51, 0]
}

/// The page size that a database header of at least 18 bytes names.
pub open spec fn header_page_size(header: Seq<u8>) -> int {
    let raw = header[16] * 256 + header[17];
    if raw == 1 {
        65536
    } else {
        raw
    }
}

pub open spec fn starts_as_sqlite(bytes: Seq<u8>) -> bool {
    bytes.len() >= 16 && bytes.take(16) == sqlite_magic()
}

/// The number of pages of an image.
pub open spec fn pages_of(bytes: Seq<u8>) -> int {
    bytes.len() as int / PAGESIZE as int
}

/// Page `p` of an image; the first page is page 1.
pub open spec fn page_of(bytes: Seq<u8>, p: int) -> Seq<u8> {
    bytes.subrange((p - 1) * PAGESIZE, p * PAGESIZE)
}

/// An image that is made of whole pages, with at least one and no more than a `u32` counts.
pub open spec fn whole_pages(bytes: Seq<u8>) -> bool {
    &&& bytes.len() % PAGESIZE as nat == 0
    &&& 1 <= pages_of(bytes) <= u32::MAX
}

/// What opening the image of a database named `name` gives.
pub open spec fn opened_image(name: Seq<char>, bytes: Seq<u8>) -> Result<
    Seq<u8>,
    CommandError<Seq<char>>,
> {
    if bytes.len() < 100 || !starts_as_sqlite(bytes) {
        invalid("path `"@ + name + "` is not a SQLite database"@)
    } else if header_page_size(bytes) != PAGESIZE {
        invalid(
            "can only read SQLite databases with "@ + decimal(PAGESIZE as nat)
                + "-byte pages directly; `"@ + name + "` uses "@ + decimal(
                header_page_size(bytes) as nat,
            ) + "-byte pages. Use VACUUM INTO with the Graft VFS to import it."@,
        )
    } else if bytes.len() % PAGESIZE as nat != 0 {
        invalid(
            "SQLite database `"@ + name + "` is not an even multiple of "@ + decimal(
                PAGESIZE as nat,
            ) + " bytes"@,
        )
    } else if pages_of(bytes) > u32::MAX {
        invalid("SQLite database `"@ + name + "` has too many pages"@)
    } else {
        Ok(bytes)
    }
}

/// The page size that a database header names.
pub fn sqlite_page_size_from_header(header: &[u8]) -> (r: u32)
    requires
        header@.len() >= 18,
    ensures
        r == header_page_size(header@),
{
    let raw: u32 = header[16] as u32 * 256 + header[17] as u32;
    if raw == 1 {
        65536
    } else {
        raw
    }
}

/// Whether the bytes start as a SQLite database does.
pub fn is_sqlite_database(bytes: &[u8]) -> (r: bool)
    ensures
        r == starts_as_sqlite(bytes@),
{
    let magic: [u8; 16] = [83, 81, 76, 105, 116, 101, 32, 102, 111, 114, 109, 97, 116, 32, 51, 0];
    if bytes.len() < 16 {
        return false;
    }
    let mut i: usize = 0;
    while i < 16
        invariant
            i <= 16 <= bytes@.len(),
            magic@ == sqlite_magic(),
            forall|j: int| 0 <= j < i ==> bytes@[j] == magic@[j],
        decreases 16 - i,
    {
        if bytes[i] != magic[i] {
            proof {
                assert(bytes@.take(16)[i as int] != sqlite_magic()[i as int]);
            }
            return false;
        }
        i += 1;
    }
    proof {
        assert(bytes@.take(16) =~= sqlite_magic());
    }
    true
}

/// A consistent physical SQLite image.
#[derive(Debug)]
pub struct SqliteImage {
    bytes: Vec<u8>,
}

impl SqliteImage {
    #[verifier::type_invariant]
    pub closed spec fn whole(&self) -> bool {
        whole_pages(self.bytes@)
    }

    /// The bytes of the image.
    pub closed spec fn data(&self) -> Seq<u8> {
        self.bytes@
    }

    /// Takes the bytes of a database file, or says why they cannot be read page by page.
    pub fn open(name: &str, bytes: Vec<u8>) -> (r: Result<SqliteImage, CommandError>)
        ensures
            match r {
                Ok(image) => opened_image(name@, bytes@) == Ok::<_, CommandError<Seq<char>>>(
                    image.data(),
                ),
                Err(e) => opened_image(name@, bytes@) == Err::<Seq<u8>, _>(e@),
            },
    {
        let size: usize = bytes.len();
        if size < 100 || !is_sqlite_database(bytes.as_slice()) {
            return Err(
                invalid_command(cat3("path `", name, "` is not a SQLite database").as_str()),
            );
        }
        let page_size: u32 = sqlite_page_size_from_header(bytes.as_slice());
        if page_size != PAGESIZE as u32 {
            let wanted = show_u64(PAGESIZE as u64);
            let found = show_u64(page_size as u64);
            let head = cat5(
                "can only read SQLite databases with ",
                wanted.as_str(),
                "-byte pages directly; `",
                name,
                "` uses ",
            );
            return Err(
                invalid_command(
                    cat3(
                        head.as_str(),
                        found.as_str(),
                        "-byte pages. Use VACUUM INTO with the Graft VFS to import it.",
                    ).as_str(),
                ),
            );
        }
        if size % PAGESIZE != 0 {
            let wanted = show_u64(PAGESIZE as u64);
            return Err(
                invalid_command(
                    cat5(
                        "SQLite database `",
                        name,
                        "` is not an even multiple of ",
                        wanted.as_str(),
                        " bytes",
                    ).as_str(),
                ),
            );
        }
        if size / PAGESIZE > u32::MAX as usize {
            return Err(
                invalid_command(cat3("SQLite database `", name, "` has too many pages").as_str()),
            );
        }
        Ok(SqliteImage { bytes })
    }

    pub fn page_count(&self) -> (r: u32)
        ensures
            r == pages_of(self.data()),
            r >= 1,
            whole_pages(self.data()),
    {
        proof {
            use_type_invariant(self);
        }
        (self.bytes.len() / PAGESIZE) as u32
    }

    pub fn as_bytes(&self) -> (r: &[u8])
        ensures
            r@ == self.data(),
            whole_pages(r@),
    {
        proof {
            use_type_invariant(self);
        }
        self.bytes.as_slice()
    }
}

} // verus!
