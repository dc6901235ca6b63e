//! Formatted XML output collected into an in-memory string.
//!
//! The writer appends indented tags to an owned buffer; callers hand the
//! finished text to whatever sink they like.  Every method states exactly
//! which characters it appends, so the serializers built on top of this
//! module can promise their full output.

use vstd::prelude::*;
use vstd::string::StringExecFns;

verus! {

/// A sequence of `n` space characters.
pub open spec fn spec_spaces(n: nat) -> Seq<char>
    decreases n,
{
    if n == 0 {
        Seq::empty()
    } else {
        spec_spaces((n - 1) as nat) + seq![' ']
    }
}

/// The text of one attribute pair: ` key="value"`.
pub open spec fn spec_attr_pair(key: Seq<char>, value: Seq<char>) -> Seq<char> {
    seq![' '] + key + seq!['=', '"'] + value + seq!['"']
}

/// The text of an attribute list, in order.
pub open spec fn spec_attrs(pairs: Seq<(&str, &str)>) -> Seq<char>
    decreases pairs.len(),
{
    if pairs.len() == 0 {
        Seq::empty()
    } else {
        spec_attrs(pairs.drop_last()) + spec_attr_pair(pairs.last().0@, pairs.last().1@)
    }
}

/// The text appended by an opening tag at a given indent width.
pub open spec fn spec_open_tag(indent: nat, tag: Seq<char>, attrs: Seq<char>) -> Seq<char> {
    spec_spaces(indent) + seq!['<'] + tag + attrs + seq!['>', '\n']
}

/// The text appended by a closing tag at a given indent width.
pub open spec fn spec_close_tag(indent: nat, tag: Seq<char>) -> Seq<char> {
    spec_spaces(indent) + seq!['<', '/'] + tag + seq!['>', '\n']
}

/// The text appended by a self-closing tag at a given indent width.
pub open spec fn spec_self_closing_tag(indent: nat, tag: Seq<char>, attrs: Seq<char>) -> Seq<
    char,
> {
    spec_spaces(indent) + seq!['<'] + tag + attrs + seq![' ', '/', '>', '\n']
}

/// The text appended by `<tag attrs>text</tag>` on one indented line.
pub open spec fn spec_text_element(
    indent: nat,
    tag: Seq<char>,
    attrs: Seq<char>,
    text: Seq<char>,
) -> Seq<char> {
    spec_spaces(indent) + seq!['<'] + tag + attrs + seq!['>'] + text + seq!['<', '/'] + tag
        + seq!['>', '\n']
}

/// An ordered list of XML attribute pairs.
pub struct XmlAttributes<'a>(Vec<(&'a str, &'a str)>);

impl<'a> View for XmlAttributes<'a> {
    type V = Seq<(&'a str, &'a str)>;

    closed spec fn view(&self) -> Seq<(&'a str, &'a str)> {
        self.0@
    }
}

/// The attribute text of an optional attribute list: empty when absent.
pub open spec fn spec_opt_attrs(attrs: Option<XmlAttributes<'_>>) -> Seq<char> {
    match attrs {
        Some(a) => spec_attrs(a@),
        None => Seq::empty(),
    }
}

impl<'a> XmlAttributes<'a> {
    pub fn new(pairs: Vec<(&'a str, &'a str)>) -> (r: Self)
        ensures
            r@ == pairs@,
    {
        Self(pairs)
    }

    /// Append ` key="value"` for each pair to the buffer.
    pub fn write_to(&self, out: &mut String)
        ensures
            final(out)@ == old(out)@ + spec_attrs(self@),
    {
        let mut i: usize = 0;
        let ghost start = out@;
        while i < self.0.len()
            invariant
                i <= self.0.len(),
                out@ == start + spec_attrs(self.0@.subrange(0, i as int)),
            decreases self.0.len() - i,
        {
            let (k, v) = self.0[i];
            out.append(" ");
            out.append(k);
            out.append("=\"");
            out.append(v);
            out.append("\"");
            proof {
                reveal_strlit(" ");
                reveal_strlit("=\"");
                reveal_strlit("\"");
                assert(self.0@.subrange(0, i + 1).drop_last() =~= self.0@.subrange(0, i as int));
                assert(out@ =~= start + spec_attrs(self.0@.subrange(0, i + 1)));
            }
            i = i + 1;
        }
        proof {
            assert(self.0@.subrange(0, self.0@.len() as int) =~= self.0@);
        }
    }

    /// The attribute text as an owned string.
    pub fn to_string(&self) -> (r: String)
        ensures
            r@ == spec_attrs(self@),
    {
        let mut out = String::new();
        self.write_to(&mut out);
        out
    }
}

/// Collects indented XML text; two spaces per indent level.
pub struct Writer {
    out: String,
    indent_level: u32,
}

impl Writer {
    /// The text collected so far.
    pub closed spec fn text(&self) -> Seq<char> {
        self.out@
    }

    /// The current nesting depth.
    pub closed spec fn depth(&self) -> nat {
        self.indent_level as nat
    }

    /// The indent width, in spaces, at the current depth.
    pub open spec fn indent(&self) -> nat {
        self.depth() * 2
    }

    pub fn new() -> (w: Writer)
        ensures
            w.text() == Seq::<char>::empty(),
            w.depth() == 0,
    {
        Writer { out: String::new(), indent_level: 0 }
    }

    /// Hand the collected text out.
    pub fn into_string(self) -> (s: String)
        ensures
            s@ == self.text(),
    {
        self.out
    }

    fn write_indent(&mut self)
        ensures
            final(self).text() == old(self).text() + spec_spaces(old(self).indent()),
            final(self).depth() == old(self).depth(),
    {
        let total: u64 = self.indent_level as u64 * 2;
        let mut i: u64 = 0;
        let ghost start = self.out@;
        while i < total
            invariant
                i <= total,
                total == self.indent_level as u64 * 2,
                self.out@ == start + spec_spaces(i as nat),
            decreases total - i,
        {
            self.out.append(" ");
            proof {
                reveal_strlit(" ");
                assert(self.out@ =~= start + spec_spaces((i + 1) as nat));
            }
            i = i + 1;
        }
    }

    /// Append an indented `<tag attrs>` line and deepen the nesting.
    pub fn open_tag(&mut self, tag: &str, attrs: Option<XmlAttributes<'_>>)
        requires
            old(self).depth() < 0x1000_0000,
        ensures
            final(self).text() == old(self).text() + spec_open_tag(
                old(self).indent(),
                tag@,
                spec_opt_attrs(attrs),
            ),
            final(self).depth() == old(self).depth() + 1,
    {
        self.write_indent();
        self.out.append("<");
        self.out.append(tag);
        if let Some(attrs) = &attrs {
            attrs.write_to(&mut self.out);
        }
        self.out.append(">\n");
        self.indent_level = self.indent_level + 1;
        proof {
            reveal_strlit("<");
            reveal_strlit(">\n");
            assert(self.out@ =~= old(self).text() + spec_open_tag(
                old(self).indent(),
                tag@,
                spec_opt_attrs(attrs),
            ));
        }
    }

    /// Shallow the nesting and append an indented `</tag>` line.
    pub fn close_tag(&mut self, tag: &str)
        requires
            old(self).depth() >= 1,
        ensures
            final(self).text() == old(self).text() + spec_close_tag(
                ((old(self).depth() - 1) * 2) as nat,
                tag@,
            ),
            final(self).depth() == old(self).depth() - 1,
    {
        self.indent_level = self.indent_level - 1;
        self.write_indent();
        self.out.append("</");
        self.out.append(tag);
        self.out.append(">\n");
        proof {
            reveal_strlit("</");
            reveal_strlit(">\n");
            assert(self.out@ =~= old(self).text() + spec_close_tag(
                ((old(self).depth() - 1) * 2) as nat,
                tag@,
            ));
        }
    }

    /// Append an indented `<tag attrs />` line.
    pub fn self_closing_tag(&mut self, tag: &str, attrs: Option<XmlAttributes<'_>>)
        ensures
            final(self).text() == old(self).text() + spec_self_closing_tag(
                old(self).indent(),
                tag@,
                spec_opt_attrs(attrs),
            ),
            final(self).depth() == old(self).depth(),
    {
        self.write_indent();
        self.out.append("<");
        self.out.append(tag);
        if let Some(attrs) = &attrs {
            attrs.write_to(&mut self.out);
        }
        self.out.append(" />\n");
        proof {
            reveal_strlit("<");
            reveal_strlit(" />\n");
            assert(self.out@ =~= old(self).text() + spec_self_closing_tag(
                old(self).indent(),
                tag@,
                spec_opt_attrs(attrs),
            ));
        }
    }

    /// Append an indented `<tag>text</tag>` line.
    pub fn text_element(&mut self, tag: &str, text: &str)
        ensures
            final(self).text() == old(self).text() + spec_text_element(
                old(self).indent(),
                tag@,
                Seq::<char>::empty(),
                text@,
            ),
            final(self).depth() == old(self).depth(),
    {
        self.write_indent();
        self.out.append("<");
        self.out.append(tag);
        self.out.append(">");
        self.out.append(text);
        self.out.append("</");
        self.out.append(tag);
        self.out.append(">\n");
        proof {
            reveal_strlit("<");
            reveal_strlit(">");
            reveal_strlit("</");
            reveal_strlit(">\n");
            assert(self.out@ =~= old(self).text() + spec_text_element(
                old(self).indent(),
                tag@,
                Seq::<char>::empty(),
                text@,
            ));
        }
    }

    /// Append an indented `<tag attrs>text</tag>` line.
    pub fn text_element_with_attrs(&mut self, tag: &str, text: &str, attrs: XmlAttributes<'_>)
        ensures
            final(self).text() == old(self).text() + spec_text_element(
                old(self).indent(),
                tag@,
                spec_attrs(attrs@),
                text@,
            ),
            final(self).depth() == old(self).depth(),
    {
        self.write_indent();
        self.out.append("<");
        self.out.append(tag);
        attrs.write_to(&mut self.out);
        self.out.append(">");
        self.out.append(text);
        self.out.append("</");
        self.out.append(tag);
        self.out.append(">\n");
        proof {
            reveal_strlit("<");
            reveal_strlit(">");
            reveal_strlit("</");
            reveal_strlit(">\n");
            assert(self.out@ =~= old(self).text() + spec_text_element(
                old(self).indent(),
                tag@,
                spec_attrs(attrs@),
                text@,
            ));
        }
    }

    /// Append the string and a newline, without indentation.
    pub fn raw(&mut self, s: &str)
        ensures
            final(self).text() == old(self).text() + s@ + seq!['\n'],
            final(self).depth() == old(self).depth(),
    {
        self.out.append(s);
        self.out.append("\n");
        proof {
            reveal_strlit("\n");
            assert(self.out@ =~= old(self).text() + s@ + seq!['\n']);
        }
    }
}

} // verus!
