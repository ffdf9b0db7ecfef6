//! Rendering a directory listing as an HTML document: one list item per
//! child (directories marked and linked with a trailing slash), every
//! untrusted name escaped for HTML text context, and an upload form appended
//! when uploads are enabled.

use vstd::prelude::*;

verus! {

use vstd::std_specs::iter::IteratorSpec;

/// One child of the listed directory: its raw (unescaped) name and whether
/// it is itself a directory.
pub struct ListingEntry {
    pub name: String,
    pub is_dir: bool,
}

/// The entries as ghost pairs of name characters and directory flag.
pub open spec fn entry_views(es: Seq<ListingEntry>) -> Seq<(Seq<char>, bool)> {
    es.map_values(|e: ListingEntry| (e.name@, e.is_dir))
}

/// HTML text-context escaping of one character: `&`, `<` and `>` become
/// entities, everything else passes through.
pub open spec fn spec_escape_char(c: char) -> Seq<char> {
    if c == '&' {
        seq!['&', 'a', 'm', 'p', ';']
    } else if c == '<' {
        seq!['&', 'l', 't', ';']
    } else if c == '>' {
        seq!['&', 'g', 't', ';']
    } else {
        seq![c]
    }
}

/// HTML text-context escaping of a string.
pub open spec fn spec_escape(s: Seq<char>) -> Seq<char>
    decreases s.len(),
{
    if s.len() == 0 {
        Seq::empty()
    } else {
        spec_escape(s.drop_last()) + spec_escape_char(s.last())
    }
}

/// Escapes `&`, `<` and `>` for HTML text context.
#[verifier::loop_isolation(false)]
pub fn escape_chars(s: &Vec<char>) -> (r: Vec<char>)
    ensures
        r@ == spec_escape(s@),
{
    let mut out: Vec<char> = Vec::new();
    let mut i: usize = 0;
    assert(s@.take(0) =~= Seq::<char>::empty());
    while i < s.len()
        invariant
            0 <= i <= s@.len(),
            out@ == spec_escape(s@.take(i as int)),
        decreases s@.len() - i,
    {
        assert(s@.take(i + 1).drop_last() =~= s@.take(i as int));
        assert(s@.take(i + 1).last() == s@[i as int]);
        let c = s[i];
        if c == '&' {
            out.push('&');
            out.push('a');
            out.push('m');
            out.push('p');
            out.push(';');
        } else if c == '<' {
            out.push('&');
            out.push('l');
            out.push('t');
            out.push(';');
        } else if c == '>' {
            out.push('&');
            out.push('g');
            out.push('t');
            out.push(';');
        } else {
            out.push(c);
        }
        assert(out@ =~= spec_escape(s@.take(i as int)) + spec_escape_char(s@[i as int]));
        i += 1;
    }
    assert(s@.take(i as int) =~= s@);
    out
}

/// Collects a string's characters, in order.
fn chars_of(s: &str) -> (r: Vec<char>)
    ensures
        r@ == s@,
{
    broadcast use vstd::string::axiom_spec_iter;
    broadcast use vstd::string::next_postcondition;

    let mut it = s.chars();
    let mut out: Vec<char> = Vec::new();
    assert(out@ + it.remaining() =~= s@);
    loop
        invariant
            it.obeys_prophetic_iter_laws(),
            it.decrease() is Some,
            out@ + it.remaining() == s@,
        ensures
            out@ == s@,
        decreases it.decrease()->0,
    {
        match it.next() {
            Some(c) => {
                out.push(c);
                assert(out@ + it.remaining() =~= s@);
            },
            None => {
                assert(it.remaining() =~= Seq::<char>::empty());
                assert(out@ =~= s@);
                break ;
            },
        }
    }
    out
}

/// HTML double-quoted-attribute escaping of one character: as in text
/// context, plus `"` so a name cannot close the attribute.
pub open spec fn spec_escape_attr_char(c: char) -> Seq<char> {
    if c == '"' {
        seq!['&', 'q', 'u', 'o', 't', ';']
    } else {
        spec_escape_char(c)
    }
}

/// HTML double-quoted-attribute escaping of a string.
pub open spec fn spec_escape_attr(s: Seq<char>) -> Seq<char>
    decreases s.len(),
{
    if s.len() == 0 {
        Seq::empty()
    } else {
        spec_escape_attr(s.drop_last()) + spec_escape_attr_char(s.last())
    }
}

/// Escapes `&`, `<`, `>` and `"` for a double-quoted HTML attribute.
#[verifier::loop_isolation(false)]
pub fn escape_attr_chars(s: &Vec<char>) -> (r: Vec<char>)
    ensures
        r@ == spec_escape_attr(s@),
{
    let mut out: Vec<char> = Vec::new();
    let mut i: usize = 0;
    assert(s@.take(0) =~= Seq::<char>::empty());
    while i < s.len()
        invariant
            0 <= i <= s@.len(),
            out@ == spec_escape_attr(s@.take(i as int)),
        decreases s@.len() - i,
    {
        assert(s@.take(i + 1).drop_last() =~= s@.take(i as int));
        assert(s@.take(i + 1).last() == s@[i as int]);
        let c = s[i];
        if c == '&' {
            out.push('&');
            out.push('a');
            out.push('m');
            out.push('p');
            out.push(';');
        } else if c == '<' {
            out.push('&');
            out.push('l');
            out.push('t');
            out.push(';');
        } else if c == '>' {
            out.push('&');
            out.push('g');
            out.push('t');
            out.push(';');
        } else if c == '"' {
            out.push('&');
            out.push('q');
            out.push('u');
            out.push('o');
            out.push('t');
            out.push(';');
        } else {
            out.push(c);
        }
        assert(out@ =~= spec_escape_attr(s@.take(i as int)) + spec_escape_attr_char(s@[i as int]));
        i += 1;
    }
    assert(s@.take(i as int) =~= s@);
    out
}

/// Relies on String's FromIterator impl: collecting characters builds
/// exactly the string with those characters.
#[verifier::external_body]
fn chars_to_string(v: &Vec<char>) -> (r: String)
    ensures
        r@ == v@,
{
    v.iter().collect()
}

/// One listing item: icon, link (directories get a trailing slash in their
/// link) and the escaped display name. The name is escaped for attribute
/// context where it stands inside `href="..."` and for text context where
/// it is displayed.
pub open spec fn spec_entry_item(name: Seq<char>, is_dir: bool) -> Seq<char> {
    "<li><span class=\"icon\">"@ + (if is_dir {
        "📁"@
    } else {
        "📄"@
    }) + "</span><a href=\""@ + spec_escape_attr(name) + (if is_dir {
        "/\">"@
    } else {
        "\">"@
    }) + spec_escape(name) + "</a></li>"@
}

/// The list items joined by single newlines.
pub open spec fn join_items(xs: Seq<Seq<char>>) -> Seq<char>
    decreases xs.len(),
{
    if xs.len() == 0 {
        Seq::empty()
    } else if xs.len() == 1 {
        xs[0]
    } else {
        join_items(xs.drop_last()) + "\n"@ + xs.last()
    }
}

/// The upload form, one extra list item, present iff uploads are enabled.
pub open spec fn spec_upload_form() -> Seq<char> {
    "\n    <li>\n        <form class=\"upload\" action=\".\" method=\"POST\" enctype=\"multipart/form-data\">\n            <label style=\"display: block; margin-bottom: 0.3rem;\">\n                <span class=\"icon\">📤</span> Upload a file:\n            </label>\n            <input type=\"file\" name=\"file\" required style=\"margin-bottom: 0.5rem;\">\n            <input type=\"submit\" value=\"Upload\">\n        </form>\n    </li>\n    "@
}

pub open spec fn spec_all_items(es: Seq<(Seq<char>, bool)>, upload: bool) -> Seq<Seq<char>> {
    let items = es.map_values(|e: (Seq<char>, bool)| spec_entry_item(e.0, e.1));
    if upload {
        items.push(spec_upload_form())
    } else {
        items
    }
}

/// Document text up to the title's display of the request path.
pub open spec fn tpl_head() -> Seq<char> {
    "<!DOCTYPE html>\n<html lang=\"en\">\n<head>\n    <meta charset=\"UTF-8\">\n    <title>Index of "@
}

/// Document text between the title and the heading's display of the path.
pub open spec fn tpl_style() -> Seq<char> {
    "</title>\n    <style>\n        body {\n            font-family: sans-serif;\n            background: #f8f9fa;\n            color: #333;\n            padding: 2rem;\n        }\n        h1 {\n            font-size: 1.5rem;\n            margin-bottom: 1rem;\n        }\n        a {\n            color: #007bff;\n            text-decoration: none;\n        }\n        a:hover {\n            text-decoration: underline;\n        }\n        ul {\n            list-style: none;\n            padding-left: 0;\n        }\n        li {\n            margin: 0.25rem 0;\n        }\n        .icon {\n            display: inline-block;\n            width: 1.5em;\n        }\n        form.upload {\n            display: flex;\n            flex-direction: column;\n            background: #f0f0f0;\n            padding: 0.5rem;\n            border-radius: 6px;\n            border: 1px solid #ccc;\n            max-width: 300px;\n            margin-top: 1rem;\n        }\n        form.upload input[type=\"file\"] {\n            margin-bottom: 0.5rem;\n        }\n        form.upload input[type=\"submit\"] {\n            align-self: flex-start;\n            background-color: #007bff;\n            color: white;\n            border: none;\n            padding: 0.4rem 1rem;\n            border-radius: 4px;\n            cursor: pointer;\n        }\n        form.upload input[type=\"submit\"]:hover {\n            background-color: #0056b3;\n        }\n    </style>\n</head>\n<body>\n    <h1>Index of "@
}

/// Document text between the heading and the entry list.
pub open spec fn tpl_list_open() -> Seq<char> {
    "</h1>\n    <ul>\n        "@
}

/// Document text after the entry list.
pub open spec fn tpl_tail() -> Seq<char> {
    "\n    </ul>\n</body>\n</html>"@
}

/// The whole listing document: the escaped request path echoed in title and
/// heading, then the items (and the upload form iff enabled) joined by
/// newlines.
pub open spec fn spec_render_listing(
    es: Seq<(Seq<char>, bool)>,
    path: Seq<char>,
    upload: bool,
) -> Seq<char> {
    tpl_head() + spec_escape(path) + tpl_style() + spec_escape(path) + tpl_list_open()
        + join_items(spec_all_items(es, upload)) + tpl_tail()
}

/// Renders the listing document for a directory's children, in the order
/// they were enumerated.
#[verifier::loop_isolation(false)]
#[verifier::rlimit(100)]
pub fn render_directory_listing(
    entries: &Vec<ListingEntry>,
    request_path: &str,
    upload_enabled: bool,
) -> (r: String)
    ensures
        r@ == spec_render_listing(entry_views(entries@), request_path@, upload_enabled),
{
    let ghost evs = entry_views(entries@);
    let ghost items = evs.map_values(|e: (Seq<char>, bool)| spec_entry_item(e.0, e.1));
    let pc = chars_of(request_path);
    let mut out: Vec<char> = chars_of(
        "<!DOCTYPE html>\n<html lang=\"en\">\n<head>\n    <meta charset=\"UTF-8\">\n    <title>Index of ",
    );
    let mut e1 = escape_chars(&pc);
    out.append(&mut e1);
    let mut sty = chars_of(
        "</title>\n    <style>\n        body {\n            font-family: sans-serif;\n            background: #f8f9fa;\n            color: #333;\n            padding: 2rem;\n        }\n        h1 {\n            font-size: 1.5rem;\n            margin-bottom: 1rem;\n        }\n        a {\n            color: #007bff;\n            text-decoration: none;\n        }\n        a:hover {\n            text-decoration: underline;\n        }\n        ul {\n            list-style: none;\n            padding-left: 0;\n        }\n        li {\n            margin: 0.25rem 0;\n        }\n        .icon {\n            display: inline-block;\n            width: 1.5em;\n        }\n        form.upload {\n            display: flex;\n            flex-direction: column;\n            background: #f0f0f0;\n            padding: 0.5rem;\n            border-radius: 6px;\n            border: 1px solid #ccc;\n            max-width: 300px;\n            margin-top: 1rem;\n        }\n        form.upload input[type=\"file\"] {\n            margin-bottom: 0.5rem;\n        }\n        form.upload input[type=\"submit\"] {\n            align-self: flex-start;\n            background-color: #007bff;\n            color: white;\n            border: none;\n            padding: 0.4rem 1rem;\n            border-radius: 4px;\n            cursor: pointer;\n        }\n        form.upload input[type=\"submit\"]:hover {\n            background-color: #0056b3;\n        }\n    </style>\n</head>\n<body>\n    <h1>Index of ",
    );
    out.append(&mut sty);
    let mut e2 = escape_chars(&pc);
    out.append(&mut e2);
    let mut lo = chars_of("</h1>\n    <ul>\n        ");
    out.append(&mut lo);
    let ghost head = tpl_head() + spec_escape(request_path@) + tpl_style() + spec_escape(
        request_path@,
    ) + tpl_list_open();
    assert(out@ =~= head + join_items(items.take(0)));
    let mut i: usize = 0;
    while i < entries.len()
        invariant
            0 <= i <= entries@.len(),
            out@ == head + join_items(items.take(i as int)),
        decreases entries@.len() - i,
    {
        let ghost before = out@;
        if i > 0 {
            let mut nl = chars_of("\n");
            out.append(&mut nl);
        }
        let mut p1 = chars_of("<li><span class=\"icon\">");
        out.append(&mut p1);
        let mut icon = if entries[i].is_dir {
            chars_of("📁")
        } else {
            chars_of("📄")
        };
        out.append(&mut icon);
        let mut p2 = chars_of("</span><a href=\"");
        out.append(&mut p2);
        let nc = chars_of(entries[i].name.as_str());
        let mut en1 = escape_attr_chars(&nc);
        out.append(&mut en1);
        let mut p3 = if entries[i].is_dir {
            chars_of("/\">")
        } else {
            chars_of("\">")
        };
        out.append(&mut p3);
        let mut en2 = escape_chars(&nc);
        out.append(&mut en2);
        let mut p4 = chars_of("</a></li>");
        out.append(&mut p4);
        proof {
            assert(evs[i as int] == (entries@[i as int].name@, entries@[i as int].is_dir));
            assert(items[i as int] == spec_entry_item(entries@[i as int].name@, entries@[
                i as int].is_dir));
            assert(items.take(i + 1).drop_last() =~= items.take(i as int));
            assert(items.take(i + 1).last() == items[i as int]);
            if i == 0 {
                assert(out@ =~= before + items[0]);
                assert(join_items(items.take(1)) == items.take(1)[0]);
                assert(out@ =~= head + join_items(items.take(1)));
            } else {
                assert(out@ =~= before + "\n"@ + items[i as int]);
                assert(out@ =~= head + (join_items(items.take(i as int)) + "\n"@ + items[
                    i as int]));
                assert(out@ =~= head + join_items(items.take(i + 1)));
            }
        }
        i += 1;
    }
    assert(items.take(i as int) =~= items);
    if upload_enabled {
        let ghost before = out@;
        if entries.len() > 0 {
            let mut nl = chars_of("\n");
            out.append(&mut nl);
        }
        let mut form = chars_of(
            "\n    <li>\n        <form class=\"upload\" action=\".\" method=\"POST\" enctype=\"multipart/form-data\">\n            <label style=\"display: block; margin-bottom: 0.3rem;\">\n                <span class=\"icon\">📤</span> Upload a file:\n            </label>\n            <input type=\"file\" name=\"file\" required style=\"margin-bottom: 0.5rem;\">\n            <input type=\"submit\" value=\"Upload\">\n        </form>\n    </li>\n    ",
        );
        out.append(&mut form);
        proof {
            let all = spec_all_items(evs, true);
            assert(all == items.push(spec_upload_form()));
            assert(all.drop_last() =~= items);
            assert(all.last() == spec_upload_form());
            if entries@.len() == 0 {
                assert(items.len() == 0);
                assert(all.len() == 1);
                assert(join_items(all) == all[0]);
                assert(out@ =~= before + spec_upload_form());
                assert(out@ =~= head + join_items(all));
            } else {
                assert(all.len() >= 2);
                assert(out@ =~= before + "\n"@ + spec_upload_form());
                assert(out@ =~= head + (join_items(items) + "\n"@ + spec_upload_form()));
                assert(out@ =~= head + join_items(all));
            }
        }
    } else {
        assert(spec_all_items(evs, false) == items);
    }
    let mut tail = chars_of("\n    </ul>\n</body>\n</html>");
    out.append(&mut tail);
    let r = chars_to_string(&out);
    assert(r@ =~= spec_render_listing(evs, request_path@, upload_enabled));
    r
}

} // verus!
