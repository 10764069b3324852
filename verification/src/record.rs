//! One output row, and how it renders as a delimited line.

use vstd::prelude::*;
use crate::text::{
    count_char, dec_digits, lemma_count_char_absent, lemma_count_char_concat,
    lemma_count_char_single, lemma_dec_digits_clean, text_clean, u64_to_string,
};

verus! {

broadcast use vstd::seq::group_seq_axioms;

/// The mathematical value of one output row.
pub struct RecordModel {
    pub id: Seq<char>,
    pub author_id: Seq<char>,
    pub author_name: Seq<char>,
    pub author_gender: Option<Seq<char>>,
    pub timestamp: Seq<char>,
    pub reactions: u64,
    pub url: Seq<char>,
    pub comment: Option<Seq<char>>,
}

/// One flat output row, extracted from one comment node of one input file.
/// `author_gender` and `comment` are genuinely optional and render as empty
/// fields when absent; every other field is required.
pub struct Record {
    pub id: String,
    pub author_id: String,
    pub author_name: String,
    pub author_gender: Option<String>,
    pub timestamp: String,
    pub reactions: u64,
    pub url: String,
    pub comment: Option<String>,
}

pub open spec fn opt_view(o: Option<String>) -> Option<Seq<char>> {
    match o {
        Some(s) => Some(s@),
        None => None,
    }
}

impl View for Record {
    type V = RecordModel;

    open spec fn view(&self) -> RecordModel {
        RecordModel {
            id: self.id@,
            author_id: self.author_id@,
            author_name: self.author_name@,
            author_gender: opt_view(self.author_gender),
            timestamp: self.timestamp@,
            reactions: self.reactions,
            url: self.url@,
            comment: opt_view(self.comment),
        }
    }
}

/// How an optional field renders: its text, or nothing at all.
pub open spec fn opt_text(o: Option<Seq<char>>) -> Seq<char> {
    match o {
        Some(s) => s,
        None => Seq::empty(),
    }
}

pub open spec fn semi() -> Seq<char> {
    seq![';']
}

/// The rendered line of one row: the eight fields in their fixed order,
/// separated by semicolons, with no quoting and no header.
pub open spec fn line_of(r: RecordModel) -> Seq<char> {
    r.id + semi() + r.author_id + semi() + r.author_name + semi() + opt_text(r.author_gender)
        + semi() + r.timestamp + semi() + dec_digits(r.reactions) + semi() + r.url + semi()
        + opt_text(r.comment)
}

/// No text field of the row holds a delimiter character. Field text comes
/// straight from the input documents, which are free to embed `;` or a line
/// break; such rows render, but they bend the shape of the output file.
pub open spec fn record_clean(r: RecordModel) -> bool {
    &&& text_clean(r.id)
    &&& text_clean(r.author_id)
    &&& text_clean(r.author_name)
    &&& text_clean(opt_text(r.author_gender))
    &&& text_clean(r.timestamp)
    &&& text_clean(r.url)
    &&& text_clean(opt_text(r.comment))
}

/// The rendered form of an optional field.
pub fn opt_str(o: &Option<String>) -> (r: &str)
    ensures
        r@ == opt_text(opt_view(*o)),
{
    match o {
        Some(s) => s.as_str(),
        None => {
            let empty = "";
            proof {
                reveal_strlit("");
                assert(empty@ =~= Seq::<char>::empty());
            }
            empty
        },
    }
}

impl Record {
    /// Renders this row as one delimited line (without the line break).
    pub fn render_line(&self) -> (line: String)
        ensures
            line@ == line_of(self@),
    {
        let mut line = self.id.clone();
        line.append(";");
        line.append(self.author_id.as_str());
        line.append(";");
        line.append(self.author_name.as_str());
        line.append(";");
        line.append(opt_str(&self.author_gender));
        line.append(";");
        line.append(self.timestamp.as_str());
        line.append(";");
        let reactions = u64_to_string(self.reactions);
        line.append(reactions.as_str());
        line.append(";");
        line.append(self.url.as_str());
        line.append(";");
        line.append(opt_str(&self.comment));
        proof {
            reveal_strlit(";");
            assert(";"@ =~= semi());
            assert(line@ =~= line_of(self@));
        }
        line
    }
}

/// Counts how often `c` occurs in the line of `r`, given that none of the
/// text fields contains it: only the seven separators can.
proof fn lemma_line_count_generic(r: RecordModel, c: char)
    requires
        record_clean(r),
        c == ';' || c == '\n',
    ensures
        count_char(line_of(r), c) == (if c == ';' {
            7nat
        } else {
            0nat
        }),
{
    broadcast use lemma_count_char_concat;

    lemma_count_char_absent(r.id, c);
    lemma_count_char_absent(r.author_id, c);
    lemma_count_char_absent(r.author_name, c);
    lemma_count_char_absent(opt_text(r.author_gender), c);
    lemma_count_char_absent(r.timestamp, c);
    lemma_count_char_absent(r.url, c);
    lemma_count_char_absent(opt_text(r.comment), c);
    lemma_dec_digits_clean(r.reactions);
    lemma_count_char_absent(dec_digits(r.reactions), c);
    lemma_count_char_single(';', c);
}

/// Every rendered line has exactly eight fields: a reader who splits it at
/// the semicolons finds seven of them, whatever optional fields are absent
/// — provided no text field smuggles a delimiter in.
pub proof fn lemma_line_semicolons(r: RecordModel)
    requires
        record_clean(r),
    ensures
        count_char(line_of(r), ';') == 7,
{
    lemma_line_count_generic(r, ';');
}

/// A rendered line holds no line break of its own.
pub proof fn lemma_line_no_newline(r: RecordModel)
    requires
        record_clean(r),
    ensures
        count_char(line_of(r), '\n') == 0,
{
    lemma_line_count_generic(r, '\n');
}

} // verus!
