use vstd::prelude::*;
use crate::theme::{Config, ConfigView, Theme, ThemeView};

verus! {

/// One shell export assignment, value always double-quoted:
/// `export NAME="VALUE"`.
pub open spec fn quoted_export(name: Seq<char>, value: Seq<char>) -> Seq<char> {
    "export "@ + name + "=\""@ + value + "\""@
}

/// The plugin name a theme exports: its own when it has one, the empty
/// string otherwise.
pub open spec fn plugin_or_empty(p: Option<Seq<char>>) -> Seq<char> {
    match p {
        Option::Some(s) => s,
        Option::None => Seq::<char>::empty(),
    }
}

/// The whole export block, in fixed order: terminal variable, editor
/// theme variable, editor plugin variable, one per line, no trailing
/// newline.
pub open spec fn export_text_spec(t: ThemeView, c: ConfigView) -> Seq<char> {
    quoted_export(c.term_env_var_name, t.term) + "\n"@ + quoted_export(
        c.nvim_theme_env_var_name,
        t.nvim_themename,
    ) + "\n"@ + quoted_export(c.nvim_plugin_env_var_name, plugin_or_empty(t.nvim_plugin))
}

/// The side file a terminal emulator's reloader reads: one expression
/// returning the chosen term as a string literal.
pub open spec fn term_file_spec(term: Seq<char>) -> Seq<char> {
    "return \""@ + term + "\""@
}

/// What formatting yields: the export block, and the side-file content
/// exactly when the configuration asks for the side file.
pub struct FormatOutput {
    pub export_text: String,
    pub term_file_content: Option<String>,
}

/// The mathematical value of a `FormatOutput`.
pub struct FormatOutputView {
    pub export_text: Seq<char>,
    pub term_file_content: Option<Seq<char>>,
}

impl View for FormatOutput {
    type V = FormatOutputView;

    open spec fn view(&self) -> FormatOutputView {
        FormatOutputView {
            export_text: self.export_text@,
            term_file_content: match self.term_file_content {
                Option::Some(s) => Option::Some(s@),
                Option::None => Option::None,
            },
        }
    }
}

/// The one output a theme and a configuration determine.
pub open spec fn format_spec(t: ThemeView, c: ConfigView) -> FormatOutputView {
    FormatOutputView {
        export_text: export_text_spec(t, c),
        term_file_content: if c.write_term_lua {
            Option::Some(term_file_spec(t.term))
        } else {
            Option::None
        },
    }
}

/// Appends one quoted export assignment to `out`.
fn push_export(out: &mut String, name: &String, value: &str)
    ensures
        final(out)@ == old(out)@ + quoted_export(name@, value@),
{
    out.append("export ");
    out.append(name.as_str());
    out.append("=\"");
    out.append(value);
    out.append("\"");
    proof {
        assert(out@ =~= old(out)@ + quoted_export(name@, value@));
    }
}

/// Renders a chosen theme under a configuration. Formatting is a pure
/// function: the result is exactly `format_spec` of the two views, so
/// the same theme and configuration always yield the same output.
pub fn format_theme(theme: &Theme, config: &Config) -> (r: FormatOutput)
    ensures
        r@ == format_spec(theme@, config@),
{
    let mut out = String::new();
    push_export(&mut out, &config.term_env_var_name, theme.term.as_str());
    out.append("\n");
    push_export(&mut out, &config.nvim_theme_env_var_name, theme.nvim_themename.as_str());
    out.append("\n");
    match &theme.nvim_plugin {
        Option::Some(p) => {
            push_export(&mut out, &config.nvim_plugin_env_var_name, p.as_str());
        },
        Option::None => {
            proof {
                reveal_strlit("");
                assert(""@ =~= Seq::<char>::empty());
            }
            push_export(&mut out, &config.nvim_plugin_env_var_name, "");
        },
    }
    let term_file_content: Option<String> = if config.write_term_lua {
        let mut f = String::new();
        f.append("return \"");
        f.append(theme.term.as_str());
        f.append("\"");
        proof {
            assert(f@ =~= term_file_spec(theme@.term));
        }
        Option::Some(f)
    } else {
        Option::None
    };
    let r = FormatOutput { export_text: out, term_file_content };
    proof {
        assert(r@.export_text =~= export_text_spec(theme@, config@));
    }
    r
}

} // verus!
