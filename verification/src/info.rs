//! What an extension tells about its own use.

use vstd::prelude::*;

verus! {

/// The usage lines and the options that an extension reports.
#[derive(Debug)]
pub struct PluginInfo {
    pub usage: Vec<String>,
    pub options: Vec<(String, String)>,
}

/// The width to which the name of an option is filled up.
pub const FLAG_WIDTH: usize = 12;

/// `n` spaces.
pub open spec fn spaces(n: nat) -> Seq<char> {
    Seq::new(n, |i: int| ' ')
}

/// A text followed by as many spaces as bring it to the given width; a
/// text that is as wide or wider is left as it is.
pub open spec fn padded(text: Seq<char>, width: nat) -> Seq<char> {
    if text.len() >= width {
        text
    } else {
        text + spaces((width - text.len()) as nat)
    }
}

/// The usage lines, each indented by two spaces.
pub open spec fn usage_lines(usage: Seq<Seq<char>>) -> Seq<char>
    decreases usage.len(),
{
    if usage.len() == 0 {
        Seq::empty()
    } else {
        usage_lines(usage.drop_last()) + "  "@ + usage.last() + "\n"@
    }
}

/// The option lines: the name filled up to twelve characters, a space, and
/// the description.
pub open spec fn option_lines(options: Seq<(Seq<char>, Seq<char>)>) -> Seq<char>
    decreases options.len(),
{
    if options.len() == 0 {
        Seq::empty()
    } else {
        option_lines(options.drop_last()) + "  "@ + padded(options.last().0, FLAG_WIDTH as nat)
            + " "@ + options.last().1 + "\n"@
    }
}

/// The texts of a list of options, in order.
pub open spec fn option_views(options: Seq<(String, String)>) -> Seq<(Seq<char>, Seq<char>)> {
    options.map_values(|o: (String, String)| (o.0@, o.1@))
}

/// The texts of a list of lines, in order.
pub open spec fn line_views(lines: Seq<String>) -> Seq<Seq<char>> {
    lines.map_values(|s: String| s@)
}

/// The whole text that describes an extension.
pub open spec fn info_text(
    name: Seq<char>,
    version: Seq<char>,
    description: Seq<char>,
    usage: Seq<Seq<char>>,
    options: Seq<(Seq<char>, Seq<char>)>,
) -> Seq<char> {
    let head = "["@ + name + ": v"@ + version + "]\n"@ + description + "\n\n"@ + "Usage:\n"@
        + usage_lines(usage) + "\n"@;
    if options.len() == 0 {
        head
    } else {
        head + "Options:\n"@ + option_lines(options)
    }
}

fn append_padded(out: &mut String, text: &str, width: usize)
    ensures
        final(out)@ == old(out)@ + padded(text@, width as nat),
{
    out.append(text);
    let len = text.unicode_len();
    if len >= width {
        return ;
    }
    let ghost start = old(out)@ + text@;
    let missing = width - len;
    let mut i: usize = 0;
    assert(spaces(0) =~= Seq::<char>::empty());
    while i < missing
        invariant
            0 <= i <= missing,
            out@ == start + spaces(i as nat),
        decreases missing - i,
    {
        out.append(" ");
        proof {
            reveal_strlit(" ");
            assert(" "@ =~= seq![' ']);
            assert(spaces((i + 1) as nat) =~= spaces(i as nat) + seq![' ']);
        }
        i += 1;
    }
    assert(out@ =~= old(out)@ + (text@ + spaces(missing as nat)));
}

impl PluginInfo {
    /// Describes the extension: its name and version, what it is for, how
    /// it is used, and its options where it has any.
    pub fn format(&self, name: &str, version: &str, description: &str) -> (out: String)
        ensures
            out@ == info_text(
                name@,
                version@,
                description@,
                line_views(self.usage@),
                option_views(self.options@),
            ),
    {
        let mut out = String::new();
        out.append("[");
        out.append(name);
        out.append(": v");
        out.append(version);
        out.append("]\n");
        out.append(description);
        out.append("\n\n");
        out.append("Usage:\n");
        let ghost head = out@;
        let ghost usage = line_views(self.usage@);
        let mut i: usize = 0;
        assert(usage.take(0) =~= Seq::<Seq<char>>::empty());
        while i < self.usage.len()
            invariant
                0 <= i <= self.usage@.len(),
                usage == line_views(self.usage@),
                out@ == head + usage_lines(usage.take(i as int)),
            decreases self.usage@.len() - i,
        {
            out.append("  ");
            out.append(self.usage[i].as_str());
            out.append("\n");
            proof {
                assert(usage.take(i + 1).drop_last() =~= usage.take(i as int));
                assert(usage.take(i + 1).last() == self.usage@[i as int]@);
                assert(out@ =~= head + usage_lines(usage.take(i + 1)));
            }
            i += 1;
        }
        assert(usage.take(i as int) =~= usage);
        out.append("\n");
        let ghost options = option_views(self.options@);
        if self.options.len() > 0 {
            out.append("Options:\n");
            let ghost top = out@;
            let mut j: usize = 0;
            assert(options.take(0) =~= Seq::<(Seq<char>, Seq<char>)>::empty());
            while j < self.options.len()
                invariant
                    0 <= j <= self.options@.len(),
                    options == option_views(self.options@),
                    out@ == top + option_lines(options.take(j as int)),
                decreases self.options@.len() - j,
            {
                out.append("  ");
                append_padded(&mut out, self.options[j].0.as_str(), FLAG_WIDTH);
                out.append(" ");
                out.append(self.options[j].1.as_str());
                out.append("\n");
                proof {
                    assert(options.take(j + 1).drop_last() =~= options.take(j as int));
                    assert(options.take(j + 1).last() == options[j as int]);
                    assert(out@ =~= top + option_lines(options.take(j + 1)));
                }
                j += 1;
            }
            assert(options.take(j as int) =~= options);
        }
        out
    }
}

} // verus!
