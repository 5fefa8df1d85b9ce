//! Reading the whitelist of archives out of an XML file: the text of every
//! `<zip>` element inside a `<zips>` element, trimmed, empty names skipped.

use vstd::prelude::*;
use crate::whitespace::{trim, trim_text, is_white_space, law_trim_cuts_white_space};
use quick_xml::events::Event;

verus! {

/// One event of the XML reader, reduced to what the whitelist scan reads.
pub enum XmlToken {
    /// A start tag, by its qualified name.
    Start(Vec<u8>),
    /// An end tag, by its qualified name.
    End(Vec<u8>),
    /// A text node: its unescaped text, or the text of the unescaping error.
    Text(Result<String, String>),
    /// The end of the document.
    Eof,
    /// A syntax error, by its text.
    Error(String),
    /// Any other event (empty elements, comments, declarations, CDATA, ...).
    Other,
}

/// The content of an `XmlToken`.
pub enum TokenView {
    Start(Seq<u8>),
    End(Seq<u8>),
    Text(Result<Seq<char>, Seq<char>>),
    Eof,
    Error(Seq<char>),
    Other,
}

impl View for XmlToken {
    type V = TokenView;

    open spec fn view(&self) -> TokenView {
        match self {
            XmlToken::Start(n) => TokenView::Start(n@),
            XmlToken::End(n) => TokenView::End(n@),
            XmlToken::Text(Ok(t)) => TokenView::Text(Ok(t@)),
            XmlToken::Text(Err(e)) => TokenView::Text(Err(e@)),
            XmlToken::Eof => TokenView::Eof,
            XmlToken::Error(e) => TokenView::Error(e@),
            XmlToken::Other => TokenView::Other,
        }
    }
}

#[verifier::external_type_specification]
#[verifier::external_body]
#[verifier::reject_recursive_types(R)]
pub struct ExXmlReader<R>(quick_xml::Reader<R>);

/// The events that `quick_xml::Reader` yields for `content` with its default
/// configuration, read one by one with `read_event_into`, up to and including
/// the first end-of-document or error.
pub uninterp spec fn xml_tokens_of(content: Seq<char>) -> Seq<TokenView>;

/// The events that `reader` has still to yield, up to and including the first
/// end-of-document or error; nothing is left once it has yielded that event.
pub uninterp spec fn xml_tokens_left(reader: quick_xml::Reader<&[u8]>) -> Seq<TokenView>;

/// Whether a token ends the stream.
pub open spec fn is_final(t: TokenView) -> bool {
    t is Eof || t is Error
}

/// Calls `quick_xml::Reader::from_str(content)`; the claim is that the new
/// reader has all of `xml_tokens_of(content)` to yield, a stream that is not
/// empty and ends at its first end-of-document or error.
#[verifier::external_body]
fn xml_reader<'a>(content: &'a str) -> (r: quick_xml::Reader<&'a [u8]>)
    ensures
        xml_tokens_left(r) == xml_tokens_of(content@),
        xml_tokens_left(r).len() > 0,
        is_final(xml_tokens_left(r).last()),
        forall|i: int| 0 <= i < xml_tokens_left(r).len() - 1 ==> !is_final(#[trigger] xml_tokens_left(r)[i]),
{
    quick_xml::Reader::from_str(content)
}

/// Calls `read_event_into` on `reader` and converts the event (text nodes
/// through `unescape`); the claim is that this is the first event the reader
/// had left, and that the rest remain.
#[verifier::external_body]
fn xml_next<'a>(reader: &mut quick_xml::Reader<&'a [u8]>, buf: &mut Vec<u8>) -> (t: XmlToken)
    requires
        xml_tokens_left(*old(reader)).len() > 0,
    ensures
        t@ == xml_tokens_left(*old(reader))[0],
        xml_tokens_left(*final(reader)) == xml_tokens_left(*old(reader)).drop_first(),
{
    let t = match reader.read_event_into(buf) {
        Ok(Event::Start(e)) => XmlToken::Start(e.name().as_ref().to_vec()),
        Ok(Event::End(e)) => XmlToken::End(e.name().as_ref().to_vec()),
        Ok(Event::Text(e)) => XmlToken::Text(match e.unescape() {
            Ok(text) => Ok(text.into_owned()),
            Err(err) => Err(err.to_string()),
        }),
        Ok(Event::Eof) => XmlToken::Eof,
        Ok(_) => XmlToken::Other,
        Err(e) => XmlToken::Error(e.to_string()),
    };
    buf.clear();
    t
}

/// The events of `content`, as the reader yields them, through the first
/// end-of-document or error.
pub fn read_xml_tokens(content: &str) -> (tokens: Vec<XmlToken>)
    ensures
        tokens@.map_values(|t: XmlToken| t@) == xml_tokens_of(content@),
{
    let mut reader = xml_reader(content);
    let mut buf: Vec<u8> = Vec::new();
    let mut tokens: Vec<XmlToken> = Vec::new();
    let ghost all = xml_tokens_of(content@);
    loop
        invariant_except_break
            xml_tokens_left(reader).len() > 0,
            is_final(xml_tokens_left(reader).last()),
            forall|i: int| 0 <= i < xml_tokens_left(reader).len() - 1 ==> !is_final(#[trigger] xml_tokens_left(reader)[i]),
        invariant
            tokens@.map_values(|t: XmlToken| t@) + xml_tokens_left(reader) == all,
        ensures
            tokens@.map_values(|t: XmlToken| t@) == all,
        decreases xml_tokens_left(reader).len(),
    {
        let ghost left = xml_tokens_left(reader);
        let ghost before = tokens@.map_values(|t: XmlToken| t@);
        let t = xml_next(&mut reader, &mut buf);
        let done = match t {
            XmlToken::Eof => true,
            XmlToken::Error(_) => true,
            _ => false,
        };
        tokens.push(t);
        proof {
            assert(tokens@.map_values(|t: XmlToken| t@) == before.push(left[0]));
            assert(before.push(left[0]) + left.drop_first() == before + left);
            assert forall|i: int| 0 <= i < left.drop_first().len() - 1 implies !is_final(#[trigger] left.drop_first()[i]) by {
                assert(left.drop_first()[i] == left[i + 1]);
            }
        }
        if done {
            proof {
                assert(is_final(left[0]));
                assert(left.len() == 1);
                assert(left.drop_first().len() == 0);
                assert(tokens@.map_values(|t: XmlToken| t@) + left.drop_first() == tokens@.map_values(|t: XmlToken| t@));
            }
            break;
        }
    }
    tokens
}

/// The tag name `zips`.
pub open spec fn zips_tag() -> Seq<u8> {
    seq![122u8, 105u8, 112u8, 115u8]
}

/// The tag name `zip`.
pub open spec fn zip_tag() -> Seq<u8> {
    seq![122u8, 105u8, 112u8]
}

/// Where the whitelist scan stands: inside `<zips>`, inside `<zip>`.
pub struct ScanState {
    pub in_zips: bool,
    pub in_zip: bool,
}

/// The scan state after token `t`: `<zips>` opens the list, `<zip>` opens an
/// entry inside it, any other start tag inside the list closes the list;
/// `</zip>` and `</zips>` close what they name.
pub open spec fn scan_state_after(st: ScanState, t: TokenView) -> ScanState {
    match t {
        TokenView::Start(n) => if n == zips_tag() {
            ScanState { in_zips: true, ..st }
        } else if n == zip_tag() && st.in_zips {
            ScanState { in_zip: true, ..st }
        } else if st.in_zips {
            ScanState { in_zips: false, ..st }
        } else {
            st
        },
        TokenView::End(n) => if n == zip_tag() {
            ScanState { in_zip: false, ..st }
        } else if n == zips_tag() {
            ScanState { in_zips: false, ..st }
        } else {
            st
        },
        _ => st,
    }
}

/// What a whitelist scan comes to.
pub enum ScanOutcome {
    /// The names found, in document order.
    Names(Seq<Seq<char>>),
    /// The reader reported a syntax error with this text.
    SyntaxError(Seq<char>),
    /// The text of a `<zip>` entry could not be unescaped.
    TextError(Seq<char>),
}

/// The scan of `tokens` from state `st`, with `found` already collected: it
/// stops at the end of the document, at a reader error, or at a text inside
/// `<zip>` that cannot be unescaped; a text inside `<zip>` adds its trimmed
/// content unless that is empty.
pub open spec fn scan_tokens(tokens: Seq<TokenView>, st: ScanState, found: Seq<Seq<char>>) -> ScanOutcome
    decreases tokens.len(),
{
    if tokens.len() == 0 {
        ScanOutcome::Names(found)
    } else {
        let t = tokens[0];
        match t {
            TokenView::Eof => ScanOutcome::Names(found),
            TokenView::Error(e) => ScanOutcome::SyntaxError(e),
            TokenView::Text(Err(e)) => if st.in_zip {
                ScanOutcome::TextError(e)
            } else {
                scan_tokens(tokens.drop_first(), st, found)
            },
            TokenView::Text(Ok(text)) => if st.in_zip && trim_text(text).len() > 0 {
                scan_tokens(tokens.drop_first(), st, found.push(trim_text(text)))
            } else {
                scan_tokens(tokens.drop_first(), st, found)
            },
            _ => scan_tokens(tokens.drop_first(), scan_state_after(st, t), found),
        }
    }
}

/// The whitelist scan of a whole token stream.
pub open spec fn whitelist_scan(tokens: Seq<TokenView>) -> ScanOutcome {
    scan_tokens(tokens, ScanState { in_zips: false, in_zip: false }, Seq::empty())
}

/// Why a whitelist file could not be read.
#[derive(Debug)]
pub enum WhitelistError {
    /// The XML reader reported this syntax error.
    Syntax(String),
    /// The text of an entry could not be unescaped.
    Text(String),
}

/// The texts of a list of strings.
pub open spec fn texts(v: Seq<String>) -> Seq<Seq<char>> {
    v.map_values(|s: String| s@)
}

/// The outcome that a scan result reports.
pub open spec fn outcome_of(r: Result<Vec<String>, WhitelistError>) -> ScanOutcome {
    match r {
        Ok(names) => ScanOutcome::Names(texts(names@)),
        Err(WhitelistError::Syntax(e)) => ScanOutcome::SyntaxError(e@),
        Err(WhitelistError::Text(e)) => ScanOutcome::TextError(e@),
    }
}

fn is_tag(name: &Vec<u8>, tag: &Vec<u8>) -> (r: bool)
    ensures
        r == (name@ == tag@),
{
    if name.len() != tag.len() {
        return false;
    }
    let mut i: usize = 0;
    while i < name.len()
        invariant
            name.len() == tag.len(),
            i <= name.len(),
            forall|j: int| 0 <= j < i ==> name@[j] == tag@[j],
        decreases name.len() - i,
    {
        if name[i] != tag[i] {
            return false;
        }
        i += 1;
    }
    assert(name@ == tag@);
    true
}

/// The whitelist that the tokens of an XML file describe.
pub fn scan_whitelist(tokens: &Vec<XmlToken>) -> (r: Result<Vec<String>, WhitelistError>)
    ensures
        outcome_of(r) == whitelist_scan(tokens@.map_values(|t: XmlToken| t@)),
{
    let zips: Vec<u8> = vec![122u8, 105u8, 112u8, 115u8];
    let zip: Vec<u8> = vec![122u8, 105u8, 112u8];
    assert(zips@ == zips_tag());
    assert(zip@ == zip_tag());
    let ghost all = tokens@.map_values(|t: XmlToken| t@);
    let mut in_zips = false;
    let mut in_zip = false;
    let mut names: Vec<String> = Vec::new();
    let mut i: usize = 0;
    assert(all.skip(0) == all);
    assert(texts(names@) == Seq::<Seq<char>>::empty());
    while i < tokens.len()
        invariant
            zips@ == zips_tag(),
            zip@ == zip_tag(),
            all == tokens@.map_values(|t: XmlToken| t@),
            i <= tokens.len(),
            whitelist_scan(all) == scan_tokens(all.skip(i as int), ScanState { in_zips, in_zip }, texts(names@)),
        decreases tokens.len() - i,
    {
        let ghost st = ScanState { in_zips, in_zip };
        let ghost rest = all.skip(i as int);
        assert(rest[0] == tokens@[i as int]@);
        assert(rest.drop_first() == all.skip(i + 1));
        match &tokens[i] {
            XmlToken::Eof => {
                return Ok(names);
            },
            XmlToken::Error(e) => {
                return Err(WhitelistError::Syntax(e.clone()));
            },
            XmlToken::Text(Err(e)) => {
                if in_zip {
                    return Err(WhitelistError::Text(e.clone()));
                }
            },
            XmlToken::Text(Ok(text)) => {
                if in_zip {
                    let name = trim(text.as_str());
                    if !name.as_str().is_empty() {
                        let ghost prev = names@;
                        names.push(name);
                        assert(texts(names@) == texts(prev).push(trim_text(text@)));
                    }
                }
            },
            XmlToken::Start(n) => {
                if is_tag(n, &zips) {
                    in_zips = true;
                } else if is_tag(n, &zip) && in_zips {
                    in_zip = true;
                } else if in_zips {
                    in_zips = false;
                }
            },
            XmlToken::End(n) => {
                if is_tag(n, &zip) {
                    in_zip = false;
                } else if is_tag(n, &zips) {
                    in_zips = false;
                }
            },
            XmlToken::Other => {},
        }
        i += 1;
    }
    assert(all.skip(i as int).len() == 0);
    Ok(names)
}

/// The whitelist written in the XML text `content`.
pub fn parse_xml_whitelist(content: &str) -> (r: Result<Vec<String>, WhitelistError>)
    ensures
        outcome_of(r) == whitelist_scan(xml_tokens_of(content@)),
{
    let tokens = read_xml_tokens(content);
    scan_whitelist(&tokens)
}

/// A whitelist name is never empty and neither starts nor ends with white space.
pub open spec fn clean_name(n: Seq<char>) -> bool {
    n.len() > 0 && !is_white_space(n[0]) && !is_white_space(n.last())
}

proof fn lemma_scan_names_clean(tokens: Seq<TokenView>, st: ScanState, found: Seq<Seq<char>>)
    requires
        forall|i: int| 0 <= i < found.len() ==> clean_name(#[trigger] found[i]),
    ensures
        scan_tokens(tokens, st, found) matches ScanOutcome::Names(names) ==> forall|i: int|
            0 <= i < names.len() ==> clean_name(#[trigger] names[i]),
    decreases tokens.len(),
{
    if tokens.len() > 0 {
        let t = tokens[0];
        match t {
            TokenView::Text(Ok(text)) => {
                if st.in_zip && trim_text(text).len() > 0 {
                    law_trim_cuts_white_space(text);
                    let grown = found.push(trim_text(text));
                    assert forall|i: int| 0 <= i < grown.len() implies clean_name(#[trigger] grown[i]) by {
                        if i < found.len() {
                            assert(grown[i] == found[i]);
                        }
                    }
                    lemma_scan_names_clean(tokens.drop_first(), st, grown);
                } else {
                    lemma_scan_names_clean(tokens.drop_first(), st, found);
                }
            },
            TokenView::Eof => {},
            TokenView::Error(_) => {},
            TokenView::Text(Err(_)) => {
                lemma_scan_names_clean(tokens.drop_first(), st, found);
            },
            _ => {
                lemma_scan_names_clean(tokens.drop_first(), scan_state_after(st, t), found);
            },
        }
    }
}

proof fn lemma_scan_without_list(tokens: Seq<TokenView>, st: ScanState, found: Seq<Seq<char>>)
    requires
        !st.in_zips,
        !st.in_zip,
        forall|i: int| 0 <= i < tokens.len() ==> #[trigger] tokens[i] != TokenView::Start(zips_tag()),
    ensures
        scan_tokens(tokens, st, found) matches ScanOutcome::Names(names) ==> names == found,
    decreases tokens.len(),
{
    if tokens.len() > 0 {
        let t = tokens[0];
        assert(t != TokenView::Start(zips_tag()));
        assert forall|i: int| 0 <= i < tokens.drop_first().len() implies #[trigger] tokens.drop_first()[i]
            != TokenView::Start(zips_tag()) by {
            assert(tokens.drop_first()[i] == tokens[i + 1]);
        }
        match t {
            TokenView::Eof => {},
            TokenView::Error(_) => {},
            TokenView::Text(_) => {
                lemma_scan_without_list(tokens.drop_first(), st, found);
            },
            _ => {
                lemma_scan_without_list(tokens.drop_first(), scan_state_after(st, t), found);
            },
        }
    }
}

/// Every name a whitelist file yields is non-empty and trimmed; and a file
/// with no `<zips>` element yields no names at all, whatever `<zip>` elements
/// or text it holds.
pub proof fn law_whitelist_names(tokens: Seq<TokenView>)
    ensures
        whitelist_scan(tokens) matches ScanOutcome::Names(names) ==> forall|i: int|
            0 <= i < names.len() ==> clean_name(#[trigger] names[i]),
        (forall|i: int| 0 <= i < tokens.len() ==> #[trigger] tokens[i] != TokenView::Start(zips_tag()))
            ==> (whitelist_scan(tokens) matches ScanOutcome::Names(names) ==> names.len() == 0),
{
    lemma_scan_names_clean(tokens, ScanState { in_zips: false, in_zip: false }, Seq::empty());
    if forall|i: int| 0 <= i < tokens.len() ==> #[trigger] tokens[i] != TokenView::Start(zips_tag()) {
        lemma_scan_without_list(tokens, ScanState { in_zips: false, in_zip: false }, Seq::empty());
    }
}

/// An entry counts: after `<zips><zip>` a text adds its trimmed content (when
/// not empty) to the names, and the scan goes on inside the entry.
pub proof fn law_entry_text_counts(text: Seq<char>, rest: Seq<TokenView>, found: Seq<Seq<char>>)
    requires
        trim_text(text).len() > 0,
    ensures
        scan_tokens(
            seq![TokenView::Start(zips_tag()), TokenView::Start(zip_tag()), TokenView::Text(Ok(text))] + rest,
            ScanState { in_zips: false, in_zip: false },
            found,
        ) == scan_tokens(rest, ScanState { in_zips: true, in_zip: true }, found.push(trim_text(text))),
{
    let all = seq![TokenView::Start(zips_tag()), TokenView::Start(zip_tag()), TokenView::Text(Ok(text))] + rest;
    assert(all[0] == TokenView::Start(zips_tag()));
    assert(all.drop_first() == seq![TokenView::Start(zip_tag()), TokenView::Text(Ok(text))] + rest);
    assert(all.drop_first().drop_first() == seq![TokenView::Text(Ok(text))] + rest);
    assert(all.drop_first().drop_first().drop_first() == rest);
    assert(zip_tag() != zips_tag()) by {
        assert(zip_tag().len() != zips_tag().len());
    }
    let s0 = ScanState { in_zips: false, in_zip: false };
    let s1 = ScanState { in_zips: true, in_zip: false };
    let s2 = ScanState { in_zips: true, in_zip: true };
    assert(scan_state_after(s0, TokenView::Start(zips_tag())) == s1);
    assert(scan_state_after(s1, TokenView::Start(zip_tag())) == s2);
    assert(scan_tokens(all, s0, found) == scan_tokens(all.drop_first(), s1, found));
    assert(all.drop_first()[0] == TokenView::Start(zip_tag()));
    assert(scan_tokens(all.drop_first(), s1, found) == scan_tokens(all.drop_first().drop_first(), s2, found));
    assert(all.drop_first().drop_first()[0] == TokenView::Text(Ok(text)));
    assert(scan_tokens(all.drop_first().drop_first(), s2, found) == scan_tokens(rest, s2, found.push(trim_text(text))));
}

} // verus!
