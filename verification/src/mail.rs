//! The mail value model: addresses with a display name and an address
//! part, and a parsed message with address lists, subject and body text.

use vstd::prelude::*;
use vstd::string::StrSliceExecFns;
use vstd::string::StringExecFns;
use crate::error::{Error, ErrorModel};
use crate::text::{find_char, find_sub, first_match, index_of_char, lemma_first_match, trim_of, trim_str};

verus! {

/// Ghost model of a [`MailAddress`].
pub struct AddressModel {
    pub name: Seq<char>,
    pub address: Seq<char>,
}

/// A mail address split into its display name and its address part.
#[derive(Debug, PartialEq)]
pub struct MailAddress {
    pub name: String,
    pub address: String,
}

impl View for MailAddress {
    type V = AddressModel;

    open spec fn view(&self) -> AddressModel {
        AddressModel { name: self.name@, address: self.address@ }
    }
}

impl DeepView for MailAddress {
    type V = AddressModel;

    open spec fn deep_view(&self) -> AddressModel {
        self.view()
    }
}

/// The address parsed out of a combined display form: the part before the
/// first `<` is the trimmed name and the part between `<` and the next `>`
/// is the address; without a `<`, the name is empty and the address is the
/// whole trimmed value.
pub open spec fn address_of(s: Seq<char>) -> AddressModel {
    let i = index_of_char(s, '<');
    if i == s.len() {
        AddressModel { name: Seq::empty(), address: trim_of(s) }
    } else {
        let rest = s.subrange(i, s.len() as int);
        let j = index_of_char(rest, '>');
        AddressModel { name: trim_of(s.subrange(0, i)), address: rest.subrange(1, j) }
    }
}

/// The combined display form of an address: `name <address>`, or the bare
/// address when the name is empty.
pub open spec fn combined_of(a: AddressModel) -> Seq<char> {
    if a.name.len() == 0 {
        a.address
    } else {
        a.name + " <"@ + a.address + ">"@
    }
}

/// The concatenation of the combined display forms of a list of addresses,
/// in list order.
pub open spec fn joined_of(l: Seq<AddressModel>) -> Seq<char>
    decreases l.len(),
{
    if l.len() == 0 {
        Seq::empty()
    } else {
        combined_of(l[0]) + joined_of(l.drop_first())
    }
}

proof fn lemma_joined_push(s: Seq<AddressModel>, x: AddressModel)
    ensures
        joined_of(s.push(x)) == joined_of(s) + combined_of(x),
    decreases s.len(),
{
    if s.len() == 0 {
        assert(s.push(x)[0] == x);
        assert(s.push(x).drop_first() =~= Seq::<AddressModel>::empty());
        assert(joined_of(s.push(x).drop_first()) == Seq::<char>::empty());
        assert(joined_of(s) == Seq::<char>::empty());
        assert(joined_of(s.push(x)) == combined_of(x) + joined_of(s.push(x).drop_first()));
        assert(combined_of(x) + Seq::<char>::empty() =~= combined_of(x));
        assert(Seq::<char>::empty() + combined_of(x) =~= combined_of(x));
    } else {
        lemma_joined_push(s.drop_first(), x);
        assert(s.push(x).drop_first() =~= s.drop_first().push(x));
        assert(s.push(x)[0] == s[0]);
        assert(joined_of(s.push(x)) == combined_of(s[0]) + joined_of(s.drop_first().push(x)));
        assert(joined_of(s) == combined_of(s[0]) + joined_of(s.drop_first()));
        assert((combined_of(s[0]) + joined_of(s.drop_first())) + combined_of(x) =~= combined_of(
            s[0],
        ) + (joined_of(s.drop_first()) + combined_of(x)));
    }
}

impl MailAddress {
    /// Builds an address from its two parts.
    pub fn new(name: String, address: String) -> (r: MailAddress)
        ensures
            r@.name == name@,
            r@.address == address@,
    {
        MailAddress { name, address }
    }

    /// Splits a combined display form (`Name <addr>` or a bare address)
    /// into its name and address parts.
    pub fn parse_imap(value: &str) -> (r: MailAddress)
        ensures
            r@ == address_of(value@),
    {
        let n = value.unicode_len();
        let i = find_char(value, '<');
        if i == n {
            MailAddress { name: String::new(), address: trim_str(value) }
        } else {
            let name = trim_str(value.substring_char(0, i));
            let rest = value.substring_char(i, n);
            let j = find_char(rest, '>');
            proof {
                assert(rest@[0] == '<');
            }
            let address = rest.substring_char(1, j);
            MailAddress { name, address: address.to_owned() }
        }
    }

    /// The combined display form of this address.
    pub fn combined(&self) -> (r: String)
        ensures
            r@ == combined_of(self@),
    {
        if self.name.as_str().unicode_len() == 0 {
            self.address.clone()
        } else {
            let mut out = self.name.clone();
            out.append(" <");
            out.append(self.address.as_str());
            out.append(">");
            out
        }
    }
}

/// Ghost model of a [`Mail`].
pub struct MailModel {
    pub from: Seq<AddressModel>,
    pub to: Seq<AddressModel>,
    pub cc: Seq<AddressModel>,
    pub subject: Seq<char>,
    pub content: Seq<char>,
}

/// A parsed message: address lists in source order, subject and flattened
/// body text. Built once per fetched message and read-only afterwards.
#[derive(Debug)]
pub struct Mail {
    pub from: Vec<MailAddress>,
    pub to: Vec<MailAddress>,
    pub cc: Vec<MailAddress>,
    pub subject: String,
    pub content: String,
}

impl View for Mail {
    type V = MailModel;

    open spec fn view(&self) -> MailModel {
        MailModel {
            from: self.from.deep_view(),
            to: self.to.deep_view(),
            cc: self.cc.deep_view(),
            subject: self.subject@,
            content: self.content@,
        }
    }
}

/// The concatenation of the combined display forms of a whole address
/// list, as condition matching sees the list.
pub fn joined(l: &Vec<MailAddress>) -> (r: String)
    ensures
        r@ == joined_of(l.deep_view()),
{
    let mut out = String::new();
    let mut i: usize = 0;
    while i < l.len()
        invariant
            0 <= i <= l@.len(),
            out@ == joined_of(l.deep_view().subrange(0, i as int)),
        decreases l@.len() - i,
    {
        let piece = l[i].combined();
        out.append(piece.as_str());
        proof {
            lemma_joined_push(l.deep_view().subrange(0, i as int), l.deep_view()[i as int]);
            assert(l.deep_view().subrange(0, i + 1) =~= l.deep_view().subrange(0, i as int).push(
                l.deep_view()[i as int],
            ));
        }
        i = i + 1;
    }
    proof {
        assert(l.deep_view().subrange(0, l.deep_view().len() as int) =~= l.deep_view());
    }
    out
}

/// The separator on which a header value splits into addresses.
pub open spec fn comma_space() -> Seq<char> {
    seq![',', ' ']
}

/// The addresses read out of one header value: the value is split on
/// every `, ` and each part is parsed as a combined display form.
pub open spec fn addresses_of(s: Seq<char>) -> Seq<AddressModel>
    decreases s.len(),
{
    let i = first_match(s, comma_space());
    if i < 0 || i + 2 > s.len() {
        seq![address_of(s)]
    } else {
        seq![address_of(s.subrange(0, i))] + addresses_of(s.subrange(i + 2, s.len() as int))
    }
}

/// Splits one header value on `, ` and parses each part as an address.
pub fn split_addresses(value: &str) -> (r: Vec<MailAddress>)
    ensures
        r.deep_view() == addresses_of(value@),
{
    let mut out: Vec<MailAddress> = Vec::new();
    let mut rest: String = value.to_owned();
    proof {
        assert(Seq::<AddressModel>::empty() + addresses_of(rest@) =~= addresses_of(rest@));
        assert(out.deep_view() =~= Seq::<AddressModel>::empty());
    }
    loop
        invariant
            addresses_of(value@) == out.deep_view() + addresses_of(rest@),
        decreases rest@.len(),
    {
        proof {
            reveal_strlit(", ");
            assert(", "@ =~= comma_space());
        }
        let found = find_sub(rest.as_str(), ", ");
        match found {
            None => {
                proof {
                    assert(addresses_of(rest@) =~= seq![address_of(rest@)]);
                }
                let last = MailAddress::parse_imap(rest.as_str());
                out.push(last);
                proof {
                    assert(out.deep_view() =~= addresses_of(value@));
                }
                return out;
            },
            Some(i) => {
                proof {
                    lemma_first_match(rest@, comma_space());
                }
                let head = rest.substring_char(0, i);
                let part = MailAddress::parse_imap(head);
                let ghost out_before = out.deep_view();
                out.push(part);
                let n = rest.unicode_len();
                let tail = rest.substring_char(i + 2, n).to_owned();
                proof {
                    assert(addresses_of(rest@) == seq![address_of(rest@.subrange(0, i as int))]
                        + addresses_of(tail@));
                    assert(out.deep_view() + addresses_of(tail@) =~= out_before + addresses_of(
                        rest@,
                    ));
                }
                rest = tail;
            },
        }
    }
}

/// The concatenation of a list of text lines, in order.
pub open spec fn concat_lines(l: Seq<Seq<char>>) -> Seq<char>
    decreases l.len(),
{
    if l.len() == 0 {
        Seq::empty()
    } else {
        l[0] + concat_lines(l.drop_first())
    }
}

proof fn lemma_concat_lines_push(s: Seq<Seq<char>>, x: Seq<char>)
    ensures
        concat_lines(s.push(x)) == concat_lines(s) + x,
    decreases s.len(),
{
    if s.len() == 0 {
        assert(s.push(x)[0] == x);
        assert(s.push(x).drop_first() =~= Seq::<Seq<char>>::empty());
        assert(concat_lines(s.push(x).drop_first()) == Seq::<char>::empty());
        assert(concat_lines(s) == Seq::<char>::empty());
        assert(x + Seq::<char>::empty() =~= x);
        assert(Seq::<char>::empty() + x =~= x);
    } else {
        lemma_concat_lines_push(s.drop_first(), x);
        assert(s.push(x).drop_first() =~= s.drop_first().push(x));
        assert(s.push(x)[0] == s[0]);
        assert(concat_lines(s.push(x)) == s[0] + concat_lines(s.drop_first().push(x)));
        assert((s[0] + concat_lines(s.drop_first())) + x =~= s[0] + (concat_lines(s.drop_first())
            + x));
    }
}

/// Concatenates a list of text lines, in order.
fn concat_strings(l: &Vec<String>) -> (r: String)
    ensures
        r@ == concat_lines(l.deep_view()),
{
    let mut out = String::new();
    let mut i: usize = 0;
    while i < l.len()
        invariant
            0 <= i <= l@.len(),
            out@ == concat_lines(l.deep_view().subrange(0, i as int)),
        decreases l@.len() - i,
    {
        out.append(l[i].as_str());
        proof {
            lemma_concat_lines_push(l.deep_view().subrange(0, i as int), l.deep_view()[i as int]);
            assert(l.deep_view().subrange(0, i + 1) =~= l.deep_view().subrange(0, i as int).push(
                l.deep_view()[i as int],
            ));
        }
        i = i + 1;
    }
    proof {
        assert(l.deep_view().subrange(0, l.deep_view().len() as int) =~= l.deep_view());
    }
    out
}

/// The raw message text rebuilt from fetched header lines and body
/// lines: the header lines, a blank line, then the body lines.
pub open spec fn raw_message_of(headers: Seq<Seq<char>>, body: Seq<Seq<char>>) -> Seq<char> {
    concat_lines(headers) + "\r\n"@ + concat_lines(body)
}

/// The header values a raw message holds for a header name, in message
/// order, or `None` when the message cannot be parsed. The values of a
/// message depend on its text and the name alone.
pub uninterp spec fn header_values_of(msg: Seq<char>, name: Seq<char>) -> Option<Seq<Seq<char>>>;

/// Relies on `mailparse::parse_mail` and `MailHeaderMap::get_all_values`:
/// parsing is a pure function of the message bytes, and the values
/// returned for a header name are those of its matching headers, in
/// message order; a message that does not parse yields an error.
#[verifier::external_body]
fn header_values(raw: &str, name: &str) -> (r: Option<Vec<String>>)
    ensures
        match r {
            Some(v) => header_values_of(raw@, name@) == Some(v.deep_view()),
            None => header_values_of(raw@, name@) is None,
        },
{
    match mailparse::parse_mail(raw.as_bytes()) {
        Ok(parsed) => Some(mailparse::MailHeaderMap::get_all_values(&parsed.headers[..], name)),
        Err(_) => None,
    }
}

/// The addresses read out of a list of header values: each value is
/// split on `, ` and the parsed parts are kept in order.
pub open spec fn addresses_of_values(vals: Seq<Seq<char>>) -> Seq<AddressModel>
    decreases vals.len(),
{
    if vals.len() == 0 {
        Seq::empty()
    } else {
        addresses_of(vals[0]) + addresses_of_values(vals.drop_first())
    }
}

proof fn lemma_addresses_of_values_push(s: Seq<Seq<char>>, x: Seq<char>)
    ensures
        addresses_of_values(s.push(x)) == addresses_of_values(s) + addresses_of(x),
    decreases s.len(),
{
    if s.len() == 0 {
        assert(s.push(x)[0] == x);
        assert(s.push(x).drop_first() =~= Seq::<Seq<char>>::empty());
        assert(addresses_of_values(s.push(x).drop_first()) == Seq::<AddressModel>::empty());
        assert(addresses_of_values(s) == Seq::<AddressModel>::empty());
        assert(addresses_of(x) + Seq::<AddressModel>::empty() =~= addresses_of(x));
        assert(Seq::<AddressModel>::empty() + addresses_of(x) =~= addresses_of(x));
    } else {
        lemma_addresses_of_values_push(s.drop_first(), x);
        assert(s.push(x).drop_first() =~= s.drop_first().push(x));
        assert(s.push(x)[0] == s[0]);
        assert(addresses_of_values(s.push(x)) == addresses_of(s[0]) + addresses_of_values(
            s.drop_first().push(x),
        ));
        assert((addresses_of(s[0]) + addresses_of_values(s.drop_first())) + addresses_of(x)
            =~= addresses_of(s[0]) + (addresses_of_values(s.drop_first()) + addresses_of(x)));
    }
}

/// Parses every value of one header into addresses, keeping order.
fn collect_addresses(vals: &Vec<String>) -> (r: Vec<MailAddress>)
    ensures
        r.deep_view() == addresses_of_values(vals.deep_view()),
{
    let mut out: Vec<MailAddress> = Vec::new();
    let mut i: usize = 0;
    proof {
        assert(out.deep_view() =~= Seq::<AddressModel>::empty());
        assert(addresses_of_values(vals.deep_view().subrange(0, 0)) == Seq::<
            AddressModel,
        >::empty());
    }
    while i < vals.len()
        invariant
            0 <= i <= vals@.len(),
            out.deep_view() == addresses_of_values(vals.deep_view().subrange(0, i as int)),
        decreases vals@.len() - i,
    {
        let mut part = split_addresses(vals[i].as_str());
        out.append(&mut part);
        proof {
            lemma_addresses_of_values_push(
                vals.deep_view().subrange(0, i as int),
                vals.deep_view()[i as int],
            );
            assert(vals.deep_view().subrange(0, i + 1) =~= vals.deep_view().subrange(
                0,
                i as int,
            ).push(vals.deep_view()[i as int]));
            assert(out.deep_view() =~= addresses_of_values(vals.deep_view().subrange(0, i + 1)));
        }
        i = i + 1;
    }
    proof {
        assert(vals.deep_view().subrange(0, vals.deep_view().len() as int) =~= vals.deep_view());
    }
    out
}

impl Mail {
    /// Rebuilds the raw message from fetched header and body lines and
    /// parses it: the address headers through the message parser, the
    /// body as the concatenation of the body lines. Fails exactly when
    /// the rebuilt message cannot be parsed.
    pub fn parse_fetched(headers: Vec<String>, body: Vec<String>) -> (r: Result<Mail, Error>)
        ensures
            ({
                let raw = raw_message_of(headers.deep_view(), body.deep_view());
                match r {
                    Ok(m) => {
                        &&& header_values_of(raw, "From"@) matches Some(vs) && m@.from
                            == addresses_of_values(vs)
                        &&& header_values_of(raw, "To"@) matches Some(vs) && m@.to
                            == addresses_of_values(vs)
                        &&& header_values_of(raw, "Cc"@) matches Some(vs) && m@.cc
                            == addresses_of_values(vs)
                        &&& header_values_of(raw, "Subject"@) matches Some(vs) && m@.subject == (
                        if vs.len() > 0 {
                            vs[0]
                        } else {
                            Seq::<char>::empty()
                        })
                        &&& m@.content == concat_lines(body.deep_view())
                    },
                    Err(e) => {
                        &&& e@ == ErrorModel::MailParse
                        &&& {
                            ||| header_values_of(raw, "From"@) is None
                            ||| header_values_of(raw, "To"@) is None
                            ||| header_values_of(raw, "Cc"@) is None
                            ||| header_values_of(raw, "Subject"@) is None
                        }
                    },
                }
            }),
    {
        let mut raw = concat_strings(&headers);
        raw.append("\r\n");
        let content = concat_strings(&body);
        raw.append(content.as_str());
        let from = match header_values(raw.as_str(), "From") {
            Some(v) => collect_addresses(&v),
            None => {
                return Err(Error::MailParse);
            },
        };
        let to = match header_values(raw.as_str(), "To") {
            Some(v) => collect_addresses(&v),
            None => {
                return Err(Error::MailParse);
            },
        };
        let cc = match header_values(raw.as_str(), "Cc") {
            Some(v) => collect_addresses(&v),
            None => {
                return Err(Error::MailParse);
            },
        };
        let subject = match header_values(raw.as_str(), "Subject") {
            Some(v) => if v.len() > 0 {
                v[0].clone()
            } else {
                String::new()
            },
            None => {
                return Err(Error::MailParse);
            },
        };
        Ok(Mail { from, to, cc, subject, content })
    }
}

} // verus!
