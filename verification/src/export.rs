//! Serialization of decrypted vault data for export.
//!
//! Export can be disabled globally by configuration ("data may only enter,
//! not leave"); when disabled, every request fails with PolicyDenied before
//! anything is serialized. The CSV and JSON shapes are stated exactly as
//! spec functions over the entries.

use vstd::prelude::*;
use crate::errors::CoreError;

verus! {

/// One decrypted record as it leaves in an export: optional fields already
/// flattened to empty strings.
pub struct ExportEntry {
    pub title: String,
    pub username: String,
    pub password: String,
    pub url: String,
    pub notes: String,
}

/// Mathematical model of an export entry.
pub ghost struct ExportEntryModel {
    pub title: Seq<char>,
    pub username: Seq<char>,
    pub password: Seq<char>,
    pub url: Seq<char>,
    pub notes: Seq<char>,
}

impl View for ExportEntry {
    type V = ExportEntryModel;

    open spec fn view(&self) -> ExportEntryModel {
        ExportEntryModel {
            title: self.title@,
            username: self.username@,
            password: self.password@,
            url: self.url@,
            notes: self.notes@,
        }
    }
}

/// One CSV row: the five fields comma-separated, newline-terminated.
pub open spec fn csv_row(e: ExportEntryModel) -> Seq<char> {
    e.title + ","@ + e.username + ","@ + e.password + ","@ + e.url + ","@ + e.notes + "\n"@
}

/// The CSV rows of the entries, in order.
pub open spec fn csv_rows(s: Seq<ExportEntryModel>) -> Seq<char>
    decreases s.len(),
{
    if s.len() == 0 {
        Seq::empty()
    } else {
        csv_rows(s.drop_last()) + csv_row(s.last())
    }
}

/// The whole CSV document: header line, then one row per entry.
pub open spec fn csv_model(s: Seq<ExportEntryModel>) -> Seq<char> {
    "Title,Username,Password,URL,Notes\n"@ + csv_rows(s)
}

/// The JSON escape of one character: quote and backslash are prefixed with
/// a backslash, every other character stands as itself.
pub open spec fn esc_char(c: char) -> Seq<char> {
    if c == '"' {
        seq!['\\', '"']
    } else if c == '\\' {
        seq!['\\', '\\']
    } else {
        seq![c]
    }
}

/// The JSON escape of a string.
pub open spec fn json_escape(s: Seq<char>) -> Seq<char>
    decreases s.len(),
{
    if s.len() == 0 {
        Seq::empty()
    } else {
        json_escape(s.drop_last()) + esc_char(s.last())
    }
}

/// One JSON object for an entry.
pub open spec fn json_item(e: ExportEntryModel) -> Seq<char> {
    "{\"title\":\""@ + json_escape(e.title) + "\",\"username\":\""@ + json_escape(e.username)
        + "\",\"password\":\""@ + json_escape(e.password) + "\",\"url\":\""@ + json_escape(e.url)
        + "\",\"notes\":\""@ + json_escape(e.notes) + "\"}"@
}

/// The comma-joined JSON objects of the entries.
pub open spec fn json_items(s: Seq<ExportEntryModel>) -> Seq<char>
    decreases s.len(),
{
    if s.len() == 0 {
        Seq::empty()
    } else if s.len() == 1 {
        json_item(s.last())
    } else {
        json_items(s.drop_last()) + ","@ + json_item(s.last())
    }
}

/// The whole JSON document: an array of the entries' objects.
pub open spec fn json_model(s: Seq<ExportEntryModel>) -> Seq<char> {
    "["@ + json_items(s) + "]"@
}

/// Appends the JSON escape of src onto out.
fn append_escaped(out: &mut String, src: &String)
    ensures
        final(out)@ == old(out)@ + json_escape(src@),
{
    let n = src.as_str().unicode_len();
    let mut i: usize = 0;
    proof {
        assert(old(out)@ + src@.subrange(0, 0) =~= old(out)@);
        assert(json_escape(src@.subrange(0, 0)) =~= Seq::<char>::empty());
        assert(old(out)@ + json_escape(src@.subrange(0, 0)) =~= old(out)@);
    }
    while i < n
        invariant
            i <= n,
            n == src@.len(),
            out@ == old(out)@ + json_escape(src@.subrange(0, i as int)),
        decreases n - i,
    {
        proof {
            assert(src@.subrange(0, i + 1).drop_last() =~= src@.subrange(0, i as int));
            assert(src@.subrange(0, i + 1).last() == src@[i as int]);
        }
        let c = src.as_str().get_char(i);
        let ghost prev = out@;
        if c == '"' {
            out.append("\\\"");
            proof {
                assert(("\\\""@).len() == 2 && ("\\\""@)[0] == '\\' && ("\\\""@)[1] == '"') by {
                    reveal_strlit("\\\"");
                }
                assert(("\\\""@) =~= esc_char(c));
            }
        } else if c == '\\' {
            out.append("\\\\");
            proof {
                assert(("\\\\"@).len() == 2 && ("\\\\"@)[0] == '\\' && ("\\\\"@)[1] == '\\') by {
                    reveal_strlit("\\\\");
                }
                assert(("\\\\"@) =~= esc_char(c));
            }
        } else {
            let piece = src.as_str().substring_char(i, i + 1);
            out.append(piece);
            proof {
                assert(src@.subrange(i as int, i + 1) =~= esc_char(src@[i as int]));
            }
        }
        proof {
            assert(out@ =~= old(out)@ + json_escape(src@.subrange(0, i + 1)));
        }
        i = i + 1;
    }
    proof {
        assert(src@.subrange(0, n as int) =~= src@);
    }
}

/// Serializes the entries as CSV.
fn to_csv(entries: &Vec<ExportEntry>) -> (r: String)
    ensures
        r@ == csv_model(entries@.map_values(|e: ExportEntry| e@)),
{
    let ghost models = entries@.map_values(|e: ExportEntry| e@);
    let mut out = String::from_str("Title,Username,Password,URL,Notes\n");
    proof {
        assert(out@ + csv_rows(models.subrange(0, 0)) =~= out@);
    }
    let mut i: usize = 0;
    while i < entries.len()
        invariant
            i <= entries.len(),
            models == entries@.map_values(|e: ExportEntry| e@),
            out@ == "Title,Username,Password,URL,Notes\n"@ + csv_rows(models.subrange(0, i as int)),
        decreases entries.len() - i,
    {
        proof {
            assert(models.subrange(0, i + 1).drop_last() =~= models.subrange(0, i as int));
            assert(models.subrange(0, i + 1).last() == models[i as int]);
        }
        let e = &entries[i];
        out.append(e.title.as_str());
        out.append(",");
        out.append(e.username.as_str());
        out.append(",");
        out.append(e.password.as_str());
        out.append(",");
        out.append(e.url.as_str());
        out.append(",");
        out.append(e.notes.as_str());
        out.append("\n");
        proof {
            assert(out@ =~= "Title,Username,Password,URL,Notes\n"@ + csv_rows(
                models.subrange(0, i + 1),
            ));
        }
        i = i + 1;
    }
    proof {
        assert(models.subrange(0, models.len() as int) =~= models);
    }
    out
}

/// Serializes the entries as JSON.
fn to_json(entries: &Vec<ExportEntry>) -> (r: String)
    ensures
        r@ == json_model(entries@.map_values(|e: ExportEntry| e@)),
{
    let ghost models = entries@.map_values(|e: ExportEntry| e@);
    let mut out = String::from_str("[");
    proof {
        assert(json_items(models.subrange(0, 0)) =~= Seq::<char>::empty());
        assert(out@ + json_items(models.subrange(0, 0)) =~= out@);
    }
    let mut i: usize = 0;
    while i < entries.len()
        invariant
            i <= entries.len(),
            models == entries@.map_values(|e: ExportEntry| e@),
            out@ == "["@ + json_items(models.subrange(0, i as int)),
        decreases entries.len() - i,
    {
        proof {
            assert(models.subrange(0, i + 1).drop_last() =~= models.subrange(0, i as int));
            assert(models.subrange(0, i + 1).last() == models[i as int]);
        }
        if i > 0 {
            out.append(",");
        }
        let e = &entries[i];
        out.append("{\"title\":\"");
        append_escaped(&mut out, &e.title);
        out.append("\",\"username\":\"");
        append_escaped(&mut out, &e.username);
        out.append("\",\"password\":\"");
        append_escaped(&mut out, &e.password);
        out.append("\",\"url\":\"");
        append_escaped(&mut out, &e.url);
        out.append("\",\"notes\":\"");
        append_escaped(&mut out, &e.notes);
        out.append("\"}");
        proof {
            assert(out@ =~= "["@ + json_items(models.subrange(0, i + 1)));
        }
        i = i + 1;
    }
    out.append("]");
    proof {
        assert(models.subrange(0, models.len() as int) =~= models);
        assert(out@ =~= json_model(models));
    }
    out
}

/// Serializes decrypted entries in the asked format. Fails with
/// PolicyDenied whenever export is disabled, whatever the format and
/// authorization; otherwise with UnsupportedFormat unless the format is
/// "json" or "csv".
pub fn export_vault_data(
    entries: &Vec<ExportEntry>,
    format: &String,
    export_enabled: bool,
) -> (r: Result<String, CoreError>)
    ensures
        !export_enabled ==> r == Err::<String, CoreError>(CoreError::PolicyDenied),
        export_enabled && format@ == "json"@ ==> (r matches Ok(s) && s@ == json_model(
            entries@.map_values(|e: ExportEntry| e@),
        )),
        export_enabled && format@ == "csv"@ ==> (r matches Ok(s) && s@ == csv_model(
            entries@.map_values(|e: ExportEntry| e@),
        )),
        export_enabled && format@ != "json"@ && format@ != "csv"@ ==> r == Err::<
            String,
            CoreError,
        >(CoreError::UnsupportedFormat),
{
    if !export_enabled {
        return Err(CoreError::PolicyDenied);
    }
    let json_name = String::from_str("json");
    let csv_name = String::from_str("csv");
    proof {
        reveal_strlit("json");
        reveal_strlit("csv");
        assert(("json"@).len() == 4 && ("csv"@).len() == 3);
    }
    if *format == json_name {
        Ok(to_json(entries))
    } else if *format == csv_name {
        Ok(to_csv(entries))
    } else {
        Err(CoreError::UnsupportedFormat)
    }
}

} // verus!
