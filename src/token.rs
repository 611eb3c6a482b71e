//! The HTML tokens that link extraction reads: tags with their attributes.
//! Whatever else a tokeniser reports (text, comments, doctypes) is `Other`.

use vstd::prelude::*;

verus! {

/// Whether a tag opens or closes an element.
#[derive(Clone, Copy, Debug, PartialEq, Eq, Structural)]
pub enum TagKind {
    StartTag,
    EndTag,
}

/// An attribute of a tag: its local name and its value.
#[derive(Clone, Debug)]
pub struct Attribute {
    pub name: String,
    pub value: String,
}

/// A start or end tag, with its attributes in the order they appear.
#[derive(Clone, Debug)]
pub struct Tag {
    pub kind: TagKind,
    pub name: String,
    pub attrs: Vec<Attribute>,
}

/// One token of an HTML token stream.
#[derive(Clone, Debug)]
pub enum Token {
    TagToken(Tag),
    Other,
}

/// Whether a token opens an anchor element `<a ...>`.
pub open spec fn is_anchor_start(t: Token) -> bool {
    &&& t matches Token::TagToken(tag)
    &&& tag.kind == TagKind::StartTag
    &&& tag.name@ == seq!['a']
}

/// The values of the attributes named `href`, in the order they appear.
pub open spec fn href_values(attrs: Seq<Attribute>) -> Seq<Seq<char>>
    decreases attrs.len(),
{
    if attrs.len() == 0 {
        Seq::empty()
    } else {
        let rest = href_values(attrs.drop_last());
        if attrs.last().name@ == seq!['h', 'r', 'e', 'f'] {
            rest.push(attrs.last().value@)
        } else {
            rest
        }
    }
}

/// The link references that a token carries: the `href` values of an anchor
/// start tag, nothing for any other token.
pub open spec fn token_hrefs(t: Token) -> Seq<Seq<char>> {
    match t {
        Token::TagToken(tag) => if is_anchor_start(t) {
            href_values(tag.attrs@)
        } else {
            Seq::empty()
        },
        Token::Other => Seq::empty(),
    }
}

/// The link references of a token stream, in document order.
pub open spec fn page_hrefs(toks: Seq<Token>) -> Seq<Seq<char>>
    decreases toks.len(),
{
    if toks.len() == 0 {
        Seq::empty()
    } else {
        page_hrefs(toks.drop_last()) + token_hrefs(toks.last())
    }
}

/// Whether `s` is the one-letter text `a`.
fn is_anchor_name(s: &String) -> (r: bool)
    ensures
        r == (s@ == seq!['a']),
{
    let t = s.as_str();
    if t.unicode_len() != 1 {
        return false;
    }
    let r = t.get_char(0) == 'a';
    assert(r ==> s@ =~= seq!['a']);
    r
}

/// Whether `s` is the text `href`.
fn is_href_name(s: &String) -> (r: bool)
    ensures
        r == (s@ == seq!['h', 'r', 'e', 'f']),
{
    let t = s.as_str();
    if t.unicode_len() != 4 {
        return false;
    }
    let r = t.get_char(0) == 'h' && t.get_char(1) == 'r' && t.get_char(2) == 'e' && t.get_char(3)
        == 'f';
    assert(r ==> s@ =~= seq!['h', 'r', 'e', 'f']);
    r
}

/// Whether a token opens an anchor element.
fn is_anchor_start_token(t: &Token) -> (r: bool)
    ensures
        r == is_anchor_start(*t),
{
    match t {
        Token::TagToken(tag) => tag.kind == TagKind::StartTag && is_anchor_name(&tag.name),
        Token::Other => false,
    }
}

/// The link references gathered from a token stream, in document order.
pub struct LinkQueue {
    links: Vec<String>,
}

impl View for LinkQueue {
    type V = Seq<Seq<char>>;

    closed spec fn view(&self) -> Seq<Seq<char>> {
        self.links@.map_values(|s: String| s@)
    }
}

impl LinkQueue {
    /// An empty queue.
    pub fn new() -> (q: LinkQueue)
        ensures
            q@ == Seq::<Seq<char>>::empty(),
    {
        let q = LinkQueue { links: Vec::new() };
        assert(q@ =~= Seq::<Seq<char>>::empty());
        q
    }

    /// Takes one token: appends the value of each `href` attribute of an
    /// anchor start tag, in attribute order; any other token is ignored.
    pub fn process_token(&mut self, token: &Token)
        ensures
            final(self)@ == old(self)@ + token_hrefs(*token),
    {
        if is_anchor_start_token(token) {
            let tag = match token {
                Token::TagToken(tag) => tag,
                Token::Other => {
                    return;
                },
            };
            let ghost start = self@;
            let mut i: usize = 0;
            while i < tag.attrs.len()
                invariant
                    i <= tag.attrs@.len(),
                    self@ == start + href_values(tag.attrs@.subrange(0, i as int)),
                decreases tag.attrs@.len() - i,
            {
                let attr = &tag.attrs[i];
                let ghost before = self.links@;
                if is_href_name(&attr.name) {
                    self.links.push(attr.value.clone());
                }
                proof {
                    let sub = tag.attrs@.subrange(0, i + 1);
                    assert(sub.drop_last() =~= tag.attrs@.subrange(0, i as int));
                    assert(sub.last() == *attr);
                    assert(before.map_values(|s: String| s@) == start + href_values(
                        sub.drop_last(),
                    ));
                    if attr.name@ == seq!['h', 'r', 'e', 'f'] {
                        assert(self.links@ == before.push(attr.value));
                        assert(self.links@.map_values(|s: String| s@) =~= before.map_values(
                            |s: String| s@,
                        ).push(attr.value@));
                    } else {
                        assert(self.links@ == before);
                    }
                    assert(self@ =~= start + href_values(sub));
                }
                i = i + 1;
            }
            assert(tag.attrs@.subrange(0, tag.attrs@.len() as int) =~= tag.attrs@);
        } else {
            assert(token_hrefs(*token) =~= Seq::<Seq<char>>::empty());
            assert(self@ + token_hrefs(*token) =~= self@);
        }
    }

    /// The link references gathered so far.
    pub fn links(&self) -> (r: &Vec<String>)
        ensures
            r@.map_values(|s: String| s@) == self@,
    {
        &self.links
    }
}

} // verus!
