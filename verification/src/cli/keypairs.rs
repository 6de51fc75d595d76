//! Uploading key pairs to the mail service: which files belong to which
//! user, and what is uploaded for each.

use vstd::prelude::*;
use crate::cli::error::{CliError, CliErrorView};
use crate::bytes::{debug_form, debug_text};

verus! {

/// Creates and uploads a client-side encryption S/MIME public key
/// certificate chain and private key metadata for a user.
pub struct InsertKeypairsAction {
    /// The requester's primary email address.
    pub user_id: String,
    /// Input directory with wrapped key files, with email as basename.
    pub inkeydir: String,
    /// Input directory with p7 pem certs with extension p7pem, with email
    /// as basename.
    pub incertdir: String,
}

/// A wrapped private key as it lies in its file.
pub struct KeyFile {
    pub kacls_url: String,
    pub wrapped_private_key: String,
}

/// What is uploaded for a user.
pub struct KeyPairInfo {
    pub pkcs7: String,
    pub private_key_metadata: Vec<PrivateKeyMetadata>,
}

pub struct PrivateKeyMetadata {
    pub kacls_key_metadata: KaclsKeyMetadata,
}

pub struct KaclsKeyMetadata {
    pub kacls_uri: String,
    pub kacls_data: String,
}

/// An entry of a directory, as it was listed.
pub struct InputFile {
    pub path: String,
    /// The last component of the path, where it has one.
    pub file_name: Option<String>,
    /// What follows the last dot of the file name, where the name has one
    /// that is not its first character.
    pub extension: Option<String>,
    pub is_file: bool,
}

impl InputFile {
    pub fn clone(&self) -> (r: InputFile)
        ensures
            r.path@ == self.path@,
            crate::object::opt_string_view(r.file_name) == crate::object::opt_string_view(
                self.file_name,
            ),
            crate::object::opt_string_view(r.extension) == crate::object::opt_string_view(
                self.extension,
            ),
            r.is_file == self.is_file,
    {
        InputFile {
            path: self.path.clone(),
            file_name: crate::object::clone_opt_string(&self.file_name),
            extension: crate::object::clone_opt_string(&self.extension),
            is_file: self.is_file,
        }
    }

    /// Whether the entry is a file with the given extension.
    pub open spec fn is_input(self, ext: Seq<char>) -> bool {
        self.is_file && self.extension is Some && self.extension->0@ == ext
    }
}

/// The place of the last dot of a name, or -1.
pub open spec fn last_dot(name: Seq<char>) -> int
    decreases name.len(),
{
    if name.len() == 0 {
        -1
    } else if name.last() == '.' {
        name.len() - 1
    } else {
        last_dot(name.drop_last())
    }
}

/// The email that a file name stands for: what precedes its last dot,
/// where what follows that dot is the extension.
pub open spec fn email_of(name: Seq<char>, ext: Seq<char>) -> Option<Seq<char>> {
    let dot = last_dot(name);
    if dot < 0 || name.skip(dot + 1) != ext {
        None
    } else {
        Some(name.take(dot))
    }
}

/// The files by email, from the first `n` entries: a later file takes the
/// place of an earlier one for the same email.
pub open spec fn emails(files: Seq<InputFile>, ext: Seq<char>, n: int) -> Map<Seq<char>, Seq<char>>
    decreases n,
{
    if n <= 0 {
        Map::empty()
    } else {
        let before = emails(files, ext, n - 1);
        let file = files[n - 1];
        match file.file_name {
            None => before,
            Some(name) => match email_of(name@, ext) {
                Some(email) => before.insert(email, file.path@),
                None => before,
            },
        }
    }
}

/// The first entry without a file name, or the number of entries.
pub open spec fn first_nameless(files: Seq<InputFile>, from: int) -> int
    decreases files.len() - from,
{
    if from >= files.len() {
        files.len() as int
    } else if files[from].file_name is None {
        from
    } else {
        first_nameless(files, from + 1)
    }
}

/// The files of a user: the email and the path of its file.
pub struct EmailFile {
    pub email: String,
    pub path: String,
}

/// The list as a map from emails to paths.
pub open spec fn as_map(list: Seq<EmailFile>) -> Map<Seq<char>, Seq<char>>
    decreases list.len(),
{
    if list.len() == 0 {
        Map::empty()
    } else {
        as_map(list.drop_last()).insert(list.last().email@, list.last().path@)
    }
}

/// No email occurs twice in the list.
pub open spec fn distinct_emails(list: Seq<EmailFile>) -> bool {
    forall|i: int, j: int|
        0 <= i < list.len() && 0 <= j < list.len() && i != j ==> #[trigger] list[i].email@
            != #[trigger] list[j].email@
}

fn find_last_dot(name: &str) -> (r: Option<usize>)
    ensures
        match r {
            Some(i) => last_dot(name@) == i && i < name@.len(),
            None => last_dot(name@) == -1,
        },
{
    let n = name.unicode_len();
    let mut i: usize = n;
    assert(name@.take(n as int) =~= name@);
    while i > 0
        invariant
            i <= n,
            n == name@.len(),
            last_dot(name@) == last_dot(name@.take(i as int)),
        decreases i,
    {
        let c = name.get_char(i - 1);
        assert(name@.take(i as int).last() == c);
        assert(name@.take(i as int).drop_last() =~= name@.take(i as int - 1));
        if c == '.' {
            return Some(i - 1);
        }
        i -= 1;
    }
    assert(name@.take(0).len() == 0);
    None
}

fn email_in(name: &str, ext: &str) -> (r: Option<String>)
    ensures
        match r {
            Some(e) => email_of(name@, ext@) == Some(e@),
            None => email_of(name@, ext@) is None,
        },
{
    let dot = match find_last_dot(name) {
        Some(d) => d,
        None => {
            return None;
        },
    };
    let n = name.unicode_len();
    let tail = String::from_str(name.substring_char(dot + 1, n));
    assert(name@.subrange(dot as int + 1, n as int) =~= name@.skip(dot as int + 1));
    if tail != String::from_str(ext) {
        return None;
    }
    let email = String::from_str(name.substring_char(0, dot));
    assert(name@.subrange(0, dot as int) =~= name@.take(dot as int));
    Some(email)
}

fn position(list: &Vec<EmailFile>, email: &String) -> (r: Option<usize>)
    ensures
        match r {
            Some(i) => i < list@.len() && list@[i as int].email@ == email@,
            None => forall|j: int| 0 <= j < list@.len() ==> list@[j].email@ != email@,
        },
{
    let mut i: usize = 0;
    while i < list.len()
        invariant
            i <= list.len(),
            forall|j: int| 0 <= j < i ==> list@[j].email@ != email@,
        decreases list.len() - i,
    {
        if list[i].email == *email {
            return Some(i);
        }
        i += 1;
    }
    None
}

/// Putting a file under an email that the list does not have yet.
proof fn lemma_push(list: Seq<EmailFile>, entry: EmailFile)
    ensures
        as_map(list.push(entry)) == as_map(list).insert(entry.email@, entry.path@),
{
    assert(list.push(entry).drop_last() =~= list);
}

/// An email that the list does not have is not in its map.
proof fn lemma_absent(list: Seq<EmailFile>, email: Seq<char>)
    requires
        forall|j: int| 0 <= j < list.len() ==> list[j].email@ != email,
    ensures
        !as_map(list).dom().contains(email),
    decreases list.len(),
{
    if list.len() > 0 {
        lemma_absent(list.drop_last(), email);
    }
}

/// Putting another file under an email that the list has.
proof fn lemma_update(list: Seq<EmailFile>, i: int, entry: EmailFile)
    requires
        distinct_emails(list),
        0 <= i < list.len(),
        entry.email@ == list[i].email@,
    ensures
        distinct_emails(list.update(i, entry)),
        as_map(list.update(i, entry)) == as_map(list).insert(entry.email@, entry.path@),
    decreases list.len(),
{
    let after = list.update(i, entry);
    assert forall|a: int, b: int|
        0 <= a < after.len() && 0 <= b < after.len() && a != b implies #[trigger] after[a].email@
        != #[trigger] after[b].email@ by {
        assert(list[a].email@ != list[b].email@);
    }
    if i == list.len() - 1 {
        assert(after.drop_last() =~= list.drop_last());
        assert(as_map(after) =~= as_map(list).insert(entry.email@, entry.path@));
    } else {
        let rest = list.drop_last();
        assert forall|a: int, b: int|
            0 <= a < rest.len() && 0 <= b < rest.len() && a != b implies #[trigger] rest[a].email@
            != #[trigger] rest[b].email@ by {
            assert(list[a].email@ != list[b].email@);
        }
        lemma_update(rest, i, entry);
        assert(after.drop_last() =~= rest.update(i, entry));
        assert(list[list.len() - 1].email@ != list[i].email@);
        assert(as_map(after) =~= as_map(list).insert(entry.email@, entry.path@));
    }
}

/// What is uploaded for a user: the certificate chain, and the wrapped
/// private key with the address of the service that unwraps it.
pub fn key_pair_info(key_file: KeyFile, pkcs7: String) -> (r: KeyPairInfo)
    ensures
        r.pkcs7 == pkcs7,
        r.private_key_metadata@.len() == 1,
        r.private_key_metadata@[0].kacls_key_metadata.kacls_uri == key_file.kacls_url,
        r.private_key_metadata@[0].kacls_key_metadata.kacls_data == key_file.wrapped_private_key,
{
    let mut private_key_metadata: Vec<PrivateKeyMetadata> = Vec::new();
    private_key_metadata.push(
        PrivateKeyMetadata {
            kacls_key_metadata: KaclsKeyMetadata {
                kacls_uri: key_file.kacls_url,
                kacls_data: key_file.wrapped_private_key,
            },
        },
    );
    KeyPairInfo { pkcs7, private_key_metadata }
}

/// What the action does for one user that has a key file.
pub enum Upload {
    /// The user has no certificate file and is passed over.
    Skip { email: String },
    /// The key pair of the user is uploaded from these two files.
    Post { email: String, key_file: String, cert_file: String },
}

impl Upload {
    pub open spec fn email(self) -> Seq<char> {
        match self {
            Upload::Skip { email } => email@,
            Upload::Post { email, .. } => email@,
        }
    }
}

impl InsertKeypairsAction {
    /// The files among the entries of a directory that have the given
    /// extension, in the order in which they were listed.
    pub fn get_input_files(entries: &Vec<InputFile>, ext: &str) -> (r: Vec<InputFile>)
        ensures
            r@.map_values(|f: InputFile| f.path@) == entries@.filter(
                |f: InputFile| f.is_input(ext@),
            ).map_values(|f: InputFile| f.path@),
            forall|i: int| 0 <= i < r@.len() ==> (#[trigger] r@[i]).is_input(ext@),
    {
        let ghost keep = |f: InputFile| f.is_input(ext@);
        let ghost path = |f: InputFile| f.path@;
        let wanted = String::from_str(ext);
        let mut out: Vec<InputFile> = Vec::new();
        let mut i: usize = 0;
        proof {
            reveal(Seq::filter);
            assert(entries@.take(0).filter(keep) =~= Seq::<InputFile>::empty());
            assert(out@.map_values(path) =~= entries@.take(0).filter(keep).map_values(path));
        }
        while i < entries.len()
            invariant
                i <= entries.len(),
                wanted@ == ext@,
                keep == |f: InputFile| f.is_input(ext@),
                path == |f: InputFile| f.path@,
                out@.map_values(path) == entries@.take(i as int).filter(keep).map_values(path),
                forall|k: int| 0 <= k < out@.len() ==> (#[trigger] out@[k]).is_input(ext@),
            decreases entries.len() - i,
        {
            let entry = &entries[i];
            let is_input = entry.is_file && match &entry.extension {
                Some(e) => *e == wanted,
                None => false,
            };
            proof {
                assert(entries@.take(i as int + 1) =~= entries@.take(i as int).push(*entry));
                crate::seq_util::lemma_filter_push(entries@.take(i as int), *entry, keep);
            }
            if is_input {
                let ghost shown = out@.map_values(path);
                out.push(entry.clone());
                assert(out@.map_values(path) =~= shown.push(entry.path@));
                assert(entries@.take(i as int).filter(keep).push(*entry).map_values(path)
                    =~= entries@.take(i as int).filter(keep).map_values(path).push(entry.path@));
            }
            i += 1;
        }
        assert(entries@.take(i as int) =~= entries@);
        out
    }

    /// The files by the email in their names: for each email the path of
    /// the last file whose name is that email, a dot and the extension.
    /// A file whose path has no file name is an error that names the
    /// path, in the `Debug` form of std; it is the first such file that
    /// is named.
    pub fn get_email_to_file(files: &Vec<InputFile>, ext: &str) -> (r: Result<Vec<EmailFile>, CliError>)
        ensures
            match r {
                Ok(list) => first_nameless(files@, 0) == files@.len() && distinct_emails(list@)
                    && as_map(list@) == emails(files@, ext@, files@.len() as int),
                Err(e) => first_nameless(files@, 0) < files@.len() && e@ == CliErrorView::Conversion(
                    "cannot get file name from input file "@ + debug_form(
                        files@[first_nameless(files@, 0)].path@,
                    ),
                ),
            },
    {
        let mut list: Vec<EmailFile> = Vec::new();
        let mut i: usize = 0;
        while i < files.len()
            invariant
                i <= files.len(),
                first_nameless(files@, 0) == first_nameless(files@, i as int),
                distinct_emails(list@),
                as_map(list@) == emails(files@, ext@, i as int),
            decreases files.len() - i,
        {
            let file = &files[i];
            let name = match &file.file_name {
                Some(n) => n,
                None => {
                    let mut text = String::from_str("cannot get file name from input file ");
                    text.append(debug_text(file.path.as_str()).as_str());
                    return Err(CliError::Conversion(text));
                },
            };
            match email_in(name.as_str(), ext) {
                None => {},
                Some(email) => {
                    let entry = EmailFile { email, path: file.path.clone() };
                    match position(&list, &entry.email) {
                        Some(k) => {
                            proof {
                                lemma_update(list@, k as int, entry);
                            }
                            list[k] = entry;
                        },
                        None => {
                            proof {
                                lemma_push(list@, entry);
                            }
                            list.push(entry);
                        },
                    }
                },
            }
            i += 1;
        }
        Ok(list)
    }

    /// The path of the file of an email, where the list has one.
    pub fn file_of(list: &Vec<EmailFile>, email: &String) -> (r: Option<String>)
        requires
            distinct_emails(list@),
        ensures
            match r {
                Some(path) => as_map(list@).dom().contains(email@) && as_map(list@)[email@] == path@,
                None => !as_map(list@).dom().contains(email@),
            },
    {
        match position(list, email) {
            Some(i) => {
                proof {
                    lemma_found(list@, i as int);
                }
                Some(list[i].path.clone())
            },
            None => {
                proof {
                    lemma_absent(list@, email@);
                }
                None
            },
        }
    }

    /// What the action does, user by user, in the order of the key files:
    /// a user with a certificate file has its key pair uploaded, any other
    /// is passed over.
    pub fn uploads(key_files: &Vec<EmailFile>, cert_files: &Vec<EmailFile>) -> (r: Vec<Upload>)
        requires
            distinct_emails(cert_files@),
        ensures
            r@.len() == key_files@.len(),
            forall|i: int|
                0 <= i < r@.len() ==> match #[trigger] r@[i] {
                    Upload::Skip { email } => email@ == key_files@[i].email@ && !as_map(
                        cert_files@,
                    ).dom().contains(email@),
                    Upload::Post { email, key_file, cert_file } => email@ == key_files@[i].email@
                        && key_file@ == key_files@[i].path@ && as_map(cert_files@).dom().contains(
                        email@,
                    ) && cert_file@ == as_map(cert_files@)[email@],
                },
    {
        let mut out: Vec<Upload> = Vec::new();
        let mut i: usize = 0;
        while i < key_files.len()
            invariant
                i <= key_files.len(),
                distinct_emails(cert_files@),
                out@.len() == i,
                forall|k: int|
                    0 <= k < out@.len() ==> match #[trigger] out@[k] {
                        Upload::Skip { email } => email@ == key_files@[k].email@ && !as_map(
                            cert_files@,
                        ).dom().contains(email@),
                        Upload::Post { email, key_file, cert_file } => email@
                            == key_files@[k].email@ && key_file@ == key_files@[k].path@ && as_map(
                            cert_files@,
                        ).dom().contains(email@) && cert_file@ == as_map(cert_files@)[email@],
                    },
            decreases key_files.len() - i,
        {
            let entry = &key_files[i];
            let step = match Self::file_of(cert_files, &entry.email) {
                Some(cert_file) => Upload::Post {
                    email: entry.email.clone(),
                    key_file: entry.path.clone(),
                    cert_file,
                },
                None => Upload::Skip { email: entry.email.clone() },
            };
            out.push(step);
            i += 1;
        }
        out
    }
}

/// The map of a list without repeated emails has each entry's path under
/// its email.
proof fn lemma_found(list: Seq<EmailFile>, i: int)
    requires
        distinct_emails(list),
        0 <= i < list.len(),
    ensures
        as_map(list).dom().contains(list[i].email@),
        as_map(list)[list[i].email@] == list[i].path@,
    decreases list.len(),
{
    if i < list.len() - 1 {
        let rest = list.drop_last();
        assert forall|a: int, b: int|
            0 <= a < rest.len() && 0 <= b < rest.len() && a != b implies #[trigger] rest[a].email@
            != #[trigger] rest[b].email@ by {
            assert(list[a].email@ != list[b].email@);
        }
        lemma_found(rest, i);
        assert(list[list.len() - 1].email@ != list[i].email@);
    }
}

} // verus!
