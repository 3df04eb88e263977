//! The small parsers of the command line: content types, transaction formats
//! and the actions.

use vstd::prelude::*;

use crate::text::{ascii_lower_seq, strings_view};

verus! {

/// The errors of the command line.
#[derive(Debug)]
pub enum CliErrors {
    InvalidContentType { provided: String, valid_options: Vec<String> },
}

/// The kinds of content a user can ask for.
#[derive(Debug, Clone, Copy, PartialEq, Eq, Structural)]
pub enum ContentTypes {
    All,
    Images,
    Videos,
    Messages,
}

/// The text `str::to_lowercase` gives.
pub uninterp spec fn lowercase_text(s: Seq<char>) -> Seq<char>;

/// All characters are ASCII.
pub open spec fn all_ascii(s: Seq<char>) -> bool {
    forall|i: int| 0 <= i < s.len() ==> (s[i] as u32) < 128
}

/// `str::to_lowercase`: Unicode's lower case of `s`. On ASCII text it lowers
/// the ASCII letters and keeps the rest; of other text the contract says only
/// that the result is its lower case.
#[verifier::external_body]
fn std_to_lowercase(s: &str) -> (r: String)
    ensures
        r@ == lowercase_text(s@),
        all_ascii(s@) ==> r@ == ascii_lower_seq(s@),
{
    s.to_lowercase()
}

/// The content type a name stands for, by its lower case.
pub open spec fn content_type_named(lower: Seq<char>) -> Option<ContentTypes> {
    if lower == "all"@ {
        Some(ContentTypes::All)
    } else if lower == "images"@ {
        Some(ContentTypes::Images)
    } else if lower == "videos"@ {
        Some(ContentTypes::Videos)
    } else if lower == "messages"@ {
        Some(ContentTypes::Messages)
    } else {
        None
    }
}

/// The names a content type can be given by.
pub open spec fn content_type_options() -> Seq<Seq<char>> {
    seq!["All"@, "Images"@, "Videos"@, "Messages"@]
}

impl ContentTypes {
    /// The content type named by `s`, whatever its case; any other name is
    /// refused with the names that are known.
    pub fn from_str(s: &str) -> (r: Result<ContentTypes, CliErrors>)
        ensures
            content_type_named(lowercase_text(s@)) matches Some(t) ==> r == Ok::<ContentTypes, CliErrors>(t),
            content_type_named(lowercase_text(s@)) is None ==> (r matches Err(CliErrors::InvalidContentType { provided, valid_options })
                && provided@ == s@ && strings_view(valid_options@) == content_type_options()),
    {
        let mut options: Vec<String> = Vec::new();
        options.push("All".to_owned());
        options.push("Images".to_owned());
        options.push("Videos".to_owned());
        options.push("Messages".to_owned());
        assert(strings_view(options@) =~= content_type_options());
        let lower = std_to_lowercase(s);
        if lower == "all".to_owned() {
            Ok(ContentTypes::All)
        } else if lower == "images".to_owned() {
            Ok(ContentTypes::Images)
        } else if lower == "videos".to_owned() {
            Ok(ContentTypes::Videos)
        } else if lower == "messages".to_owned() {
            Ok(ContentTypes::Messages)
        } else {
            Err(CliErrors::InvalidContentType { provided: s.to_owned(), valid_options: options })
        }
    }
}

impl Default for ContentTypes {
    fn default() -> (c: ContentTypes)
        ensures
            c == ContentTypes::All,
    {
        ContentTypes::All
    }
}

/// How transactions are written out.
#[derive(Debug, Clone, Copy, PartialEq, Eq, Structural)]
pub enum TransactionFormat {
    Json,
    PlainText,
    Table,
}

/// The format a name stands for, exactly as written.
pub open spec fn transaction_format_named(s: Seq<char>) -> Option<TransactionFormat> {
    if s == "json"@ {
        Some(TransactionFormat::Json)
    } else if s == "text"@ {
        Some(TransactionFormat::PlainText)
    } else if s == "table"@ {
        Some(TransactionFormat::Table)
    } else {
        None
    }
}

impl TransactionFormat {
    /// The format named `json`, `text` or `table`; any other name is refused
    /// with `[<name>] is not recognized`.
    pub fn from_str(s: &str) -> (r: Result<TransactionFormat, String>)
        ensures
            transaction_format_named(s@) matches Some(t) ==> r == Ok::<TransactionFormat, String>(t),
            transaction_format_named(s@) is None ==> (r matches Err(e) && e@ == "["@ + s@ + "] is not recognized"@),
    {
        let t = s.to_owned();
        if t == "json".to_owned() {
            Ok(TransactionFormat::Json)
        } else if t == "text".to_owned() {
            Ok(TransactionFormat::PlainText)
        } else if t == "table".to_owned() {
            Ok(TransactionFormat::Table)
        } else {
            let mut e = "[".to_owned();
            e.append(s);
            e.append("] is not recognized");
            Err(e)
        }
    }
}

impl Default for TransactionFormat {
    fn default() -> (f: TransactionFormat)
        ensures
            f == TransactionFormat::PlainText,
    {
        TransactionFormat::PlainText
    }
}

/// The commands of the command line.
#[derive(Debug)]
pub enum CliAction {
    /// Run the gatherers.
    Start {
        user_names: Vec<String>,
        worker_count: u8,
        limit_subs: Option<usize>,
        limit_media: Option<usize>,
        ignored_user_names: Vec<String>,
    },
    /// Gather only purchased content.
    Purchased,
    /// Like posts of subscribed accounts.
    Like { like_all: Option<bool>, like_user: Option<String> },
    /// Unlike posts of subscribed accounts.
    Unlike { like_all: Option<bool>, like_user: Option<String> },
    /// List the active subscriptions.
    List,
    /// List the transactions of the signed-in account.
    Transactions { user_names: Vec<String>, format: TransactionFormat },
}

impl Default for CliAction {
    fn default() -> (a: CliAction)
        ensures
            a matches CliAction::Start { user_names, worker_count, limit_subs, limit_media, ignored_user_names }
                && user_names@.len() == 0 && worker_count == 0 && limit_subs is None && limit_media is None
                && ignored_user_names@.len() == 0,
    {
        CliAction::Start {
            worker_count: 0,
            limit_subs: None,
            limit_media: None,
            user_names: Vec::new(),
            ignored_user_names: Vec::new(),
        }
    }
}

} // verus!
