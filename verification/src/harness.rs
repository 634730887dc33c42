//! The harness generator: source text for one uniquely named function per
//! non-ignored snippet, a name-indexed dispatcher, and an invoke-all routine.

use vstd::prelude::*;
use vstd::string::StringExecFns;
use crate::registry::views;
use crate::snippet::ExampleSnippet;
use crate::snippet::SnippetView;

verus! {

/// The text before the identifier in a harness function's header.
pub open spec fn harness_head() -> Seq<char> {
    "\nfn imgui_example_"@
}

/// The harness body from the header to the point where the snippet's code is
/// substituted: a headless context on a fixed 500 by 500 canvas, persistent
/// state disabled, a synthetic cursor, the default font rasterized once, and
/// two synthetic frames with a fixed simulated time step.
pub open spec fn harness_prelude() -> Seq<char> {
    "(directory: &std::path::PathBuf) {
    let width = 500;
    let height = 500;

    let mut imgui_ctx = imgui::Context::create();

    imgui_ctx.set_ini_filename(None);

    imgui_ctx.io_mut().mouse_draw_cursor = true;
    imgui_ctx.io_mut().mouse_pos = [200.0, 50.0];

    imgui_ctx.fonts().add_font(&[imgui::FontSource::DefaultFontData {
        config: Some(imgui::FontConfig {
            size_pixels: 13.0,
            ..imgui::FontConfig::default()
        }),
    }]);

    let font_pixmap = {
        let mut font_atlas = imgui_ctx.fonts();
        let font_atlas_tex = font_atlas.build_rgba32_texture();

        let mut font_pixmap = tiny_skia::Pixmap::new(font_atlas_tex.width, font_atlas_tex.height).unwrap();

        {
            let data = font_pixmap.pixels_mut();
            for (i, src) in font_atlas_tex.data.chunks(4).enumerate() {
                data[i] =
                    tiny_skia::ColorU8::from_rgba(src[0], src[1], src[2], src[3]).premultiply();
            }
        }

        font_pixmap
    };

    imgui_ctx.io_mut().display_size = [width as f32, height as f32];
    imgui_ctx.io_mut().display_framebuffer_scale = [1.0, 1.0];

    for _frame in 0..2 {
        imgui_ctx
            .io_mut()
            .update_delta_time(std::time::Duration::from_millis(20));

        let draw_data: &imgui::DrawData = {
            let ui = imgui_ctx.frame();

            {
"@
}

/// The harness body from after the snippet's code to the artifact file name:
/// the draw list rendered into an offscreen buffer over a fixed background.
pub open spec fn harness_render() -> Seq<char> {
    "
            };

            ui.render()
        };

        let mut px = tiny_skia::Pixmap::new(width, height).unwrap();
        px.fill(tiny_skia::Color::from_rgba8(89, 89, 89, 255));

        let r = imgui_software_renderer::Renderer::new();
        r.render(&mut px, draw_data, font_pixmap.as_ref());

        let fname = directory.join(&format!(\""@
}

/// The end of the harness body: the buffer written as the artifact file.
pub open spec fn harness_tail() -> Seq<char> {
    ".png\"));
        px.save_png(fname).unwrap();
    }
}
"@
}

/// The source text of one snippet's harness function; an ignored snippet
/// yields no function at all.
pub open spec fn harness_source_spec(sn: SnippetView) -> Seq<char> {
    if sn.tags.ignore {
        Seq::empty()
    } else {
        harness_head() + sn.ident + harness_prelude() + sn.code + harness_render() + sn.ident
            + harness_tail()
    }
}

/// Emits the source text of one snippet's harness function: the snippet's
/// code substituted verbatim into the final frame of the fixed two-frame
/// template, writing `<identifier>.png` into the caller-supplied directory.
pub fn harness_source(s: &ExampleSnippet) -> (r: String)
    ensures
        r@ == harness_source_spec(s@),
{
    if s.tags.ignore {
        let r = String::new();
        return r;
    }
    let mut out = String::from_str("\nfn imgui_example_");
    out.append(s.ident.as_str());
    out.append(
        "(directory: &std::path::PathBuf) {
    let width = 500;
    let height = 500;

    let mut imgui_ctx = imgui::Context::create();

    imgui_ctx.set_ini_filename(None);

    imgui_ctx.io_mut().mouse_draw_cursor = true;
    imgui_ctx.io_mut().mouse_pos = [200.0, 50.0];

    imgui_ctx.fonts().add_font(&[imgui::FontSource::DefaultFontData {
        config: Some(imgui::FontConfig {
            size_pixels: 13.0,
            ..imgui::FontConfig::default()
        }),
    }]);

    let font_pixmap = {
        let mut font_atlas = imgui_ctx.fonts();
        let font_atlas_tex = font_atlas.build_rgba32_texture();

        let mut font_pixmap = tiny_skia::Pixmap::new(font_atlas_tex.width, font_atlas_tex.height).unwrap();

        {
            let data = font_pixmap.pixels_mut();
            for (i, src) in font_atlas_tex.data.chunks(4).enumerate() {
                data[i] =
                    tiny_skia::ColorU8::from_rgba(src[0], src[1], src[2], src[3]).premultiply();
            }
        }

        font_pixmap
    };

    imgui_ctx.io_mut().display_size = [width as f32, height as f32];
    imgui_ctx.io_mut().display_framebuffer_scale = [1.0, 1.0];

    for _frame in 0..2 {
        imgui_ctx
            .io_mut()
            .update_delta_time(std::time::Duration::from_millis(20));

        let draw_data: &imgui::DrawData = {
            let ui = imgui_ctx.frame();

            {
",
    );
    out.append(s.code.as_str());
    out.append(
        "
            };

            ui.render()
        };

        let mut px = tiny_skia::Pixmap::new(width, height).unwrap();
        px.fill(tiny_skia::Color::from_rgba8(89, 89, 89, 255));

        let r = imgui_software_renderer::Renderer::new();
        r.render(&mut px, draw_data, font_pixmap.as_ref());

        let fname = directory.join(&format!(\"",
    );
    out.append(s.ident.as_str());
    out.append(
        ".png\"));
        px.save_png(fname).unwrap();
    }
}
",
    );
    out
}

/// The dispatch line that invokes one snippet's harness; empty for an
/// ignored snippet.
pub open spec fn invoke_line_spec(sn: SnippetView) -> Seq<char> {
    if sn.tags.ignore {
        Seq::empty()
    } else {
        "imgui_example_"@ + sn.ident + "(directory);\n"@
    }
}

/// Emits the call of one snippet's harness function.
pub fn invoke_line(s: &ExampleSnippet) -> (r: String)
    ensures
        r@ == invoke_line_spec(s@),
{
    if s.tags.ignore {
        return String::new();
    }
    let mut out = String::from_str("imgui_example_");
    out.append(s.ident.as_str());
    out.append("(directory);\n");
    out
}

pub open spec fn invoke_lines(l: Seq<SnippetView>) -> Seq<char>
    decreases l.len(),
{
    if l.len() == 0 {
        Seq::empty()
    } else {
        invoke_line_spec(l[0]) + invoke_lines(l.drop_first())
    }
}

/// Appends the invoke lines of every snippet from the given index on.
fn push_invoke_lines(out: &mut String, reg: &Vec<ExampleSnippet>, k: usize)
    requires
        k <= reg@.len(),
    ensures
        final(out)@ == old(out)@ + invoke_lines(views(reg@).skip(k as int)),
    decreases reg@.len() - k,
{
    let ghost rem = views(reg@).skip(k as int);
    if k < reg.len() {
        proof {
            assert(views(reg@).len() == reg@.len());
            assert(rem[0] == reg@[k as int]@);
            assert(rem.drop_first() =~= views(reg@).skip(k + 1));
        }
        let line = invoke_line(&reg[k]);
        out.append(line.as_str());
        push_invoke_lines(out, reg, k + 1);
        proof {
            assert(out@ =~= old(out)@ + invoke_lines(rem));
        }
    } else {
        proof {
            assert(rem =~= Seq::<SnippetView>::empty());
            assert(out@ =~= old(out)@ + invoke_lines(rem));
        }
    }
}

/// The routine that invokes every non-ignored harness once.
pub open spec fn generate_all_source_spec(l: Seq<SnippetView>) -> Seq<char> {
    "\n\npub fn generate_all(directory: &std::path::PathBuf) {\n"@ + invoke_lines(l) + "}\n"@
}

/// Emits the source text of the routine that invokes every non-ignored
/// harness once, in registry order.
pub fn generate_all_source(reg: &Vec<ExampleSnippet>) -> (r: String)
    ensures
        r@ == generate_all_source_spec(views(reg@)),
{
    let mut out = String::from_str("\n\npub fn generate_all(directory: &std::path::PathBuf) {\n");
    push_invoke_lines(&mut out, reg, 0);
    proof {
        assert(views(reg@).skip(0) =~= views(reg@));
    }
    out.append("}\n");
    out
}

/// One arm of the dispatcher's match: the identifier as the pattern, the
/// invoke line as the body.
pub open spec fn dispatch_arm_spec(sn: SnippetView) -> Seq<char> {
    "        \""@ + sn.ident + "\" => {\n            "@ + invoke_line_spec(sn) + "        },\n"@
}

pub open spec fn dispatch_arms(l: Seq<SnippetView>) -> Seq<char>
    decreases l.len(),
{
    if l.len() == 0 {
        Seq::empty()
    } else {
        dispatch_arm_spec(l[0]) + dispatch_arms(l.drop_first())
    }
}

/// Appends the dispatch arms of every snippet from the given index on.
fn push_dispatch_arms(out: &mut String, reg: &Vec<ExampleSnippet>, k: usize)
    requires
        k <= reg@.len(),
    ensures
        final(out)@ == old(out)@ + dispatch_arms(views(reg@).skip(k as int)),
    decreases reg@.len() - k,
{
    let ghost rem = views(reg@).skip(k as int);
    if k < reg.len() {
        proof {
            assert(views(reg@).len() == reg@.len());
            assert(rem[0] == reg@[k as int]@);
            assert(rem.drop_first() =~= views(reg@).skip(k + 1));
        }
        out.append("        \"");
        out.append(reg[k].ident.as_str());
        out.append("\" => {\n            ");
        let line = invoke_line(&reg[k]);
        out.append(line.as_str());
        out.append("        },\n");
        push_dispatch_arms(out, reg, k + 1);
        proof {
            assert(out@ =~= old(out)@ + dispatch_arms(rem));
        }
    } else {
        proof {
            assert(rem =~= Seq::<SnippetView>::empty());
            assert(out@ =~= old(out)@ + dispatch_arms(rem));
        }
    }
}

/// The name-indexed dispatcher: one arm per snippet (an ignored snippet's
/// arm invokes nothing), and a fatal default for an unknown identifier.
pub open spec fn dispatch_source_spec(l: Seq<SnippetView>) -> Seq<char> {
    "\n\npub fn generate(name: &str, directory: &std::path::PathBuf) {\n    match name {\n"@
        + dispatch_arms(l)
        + "        _ => panic!(\"invoke of unknown identifier\"),\n    }\n}\n"@
}

/// Emits the source text of the dispatcher that invokes a harness by its
/// snippet's identifier; an identifier outside the registry is fatal there.
pub fn dispatch_source(reg: &Vec<ExampleSnippet>) -> (r: String)
    ensures
        r@ == dispatch_source_spec(views(reg@)),
{
    let mut out = String::from_str(
        "\n\npub fn generate(name: &str, directory: &std::path::PathBuf) {\n    match name {\n",
    );
    push_dispatch_arms(&mut out, reg, 0);
    proof {
        assert(views(reg@).skip(0) =~= views(reg@));
    }
    out.append("        _ => panic!(\"invoke of unknown identifier\"),\n    }\n}\n");
    out
}

pub open spec fn harness_sources(l: Seq<SnippetView>) -> Seq<char>
    decreases l.len(),
{
    if l.len() == 0 {
        Seq::empty()
    } else {
        harness_source_spec(l[0]) + harness_sources(l.drop_first())
    }
}

/// Appends the harness functions of every snippet from the given index on.
fn push_harness_sources(out: &mut String, reg: &Vec<ExampleSnippet>, k: usize)
    requires
        k <= reg@.len(),
    ensures
        final(out)@ == old(out)@ + harness_sources(views(reg@).skip(k as int)),
    decreases reg@.len() - k,
{
    let ghost rem = views(reg@).skip(k as int);
    if k < reg.len() {
        proof {
            assert(views(reg@).len() == reg@.len());
            assert(rem[0] == reg@[k as int]@);
            assert(rem.drop_first() =~= views(reg@).skip(k + 1));
        }
        let src = harness_source(&reg[k]);
        out.append(src.as_str());
        push_harness_sources(out, reg, k + 1);
        proof {
            assert(out@ =~= old(out)@ + harness_sources(rem));
        }
    } else {
        proof {
            assert(rem =~= Seq::<SnippetView>::empty());
            assert(out@ =~= old(out)@ + harness_sources(rem));
        }
    }
}

/// The whole generated module: every harness function, the invoke-all
/// routine and the dispatcher.
pub open spec fn module_source_spec(l: Seq<SnippetView>) -> Seq<char> {
    "#[allow(unreachable_code)]\n"@ + harness_sources(l) + generate_all_source_spec(l)
        + dispatch_source_spec(l)
}

/// Emits the whole generated module for a registry.
pub fn module_source(reg: &Vec<ExampleSnippet>) -> (r: String)
    ensures
        r@ == module_source_spec(views(reg@)),
{
    let mut out = String::from_str("#[allow(unreachable_code)]\n");
    push_harness_sources(&mut out, reg, 0);
    proof {
        assert(views(reg@).skip(0) =~= views(reg@));
    }
    let ga = generate_all_source(reg);
    out.append(ga.as_str());
    let ds = dispatch_source(reg);
    out.append(ds.as_str());
    out
}

} // verus!
