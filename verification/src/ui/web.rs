//! A user-interface platform in the browser, which works by running scripts.
//!
//! Outside a browser the scripts are not run; the platform keeps them, in order,
//! for the caller to show or run.

use vstd::prelude::*;
use crate::text::{decimal, owned, append_str, usize_to_string, str_eq};
use crate::ui::platform::{
    UIPlatform, WindowHandle, ButtonHandle, LabelHandle, PlatformWindowHandle,
    PlatformButtonHandle, PlatformLabelHandle, UIError, UIFeature,
};

verus! {

/// The script that creates a window's element.
pub open spec fn window_dom(id: Seq<char>, title: Seq<char>, width: u32, height: u32) -> Seq<char> {
    "\n            if (!document.getElementById('"@ + id + "')) {\n                const div = document.createElement('div');\n                div.id = '"@ + id + "';\n                div.style.position = 'fixed';\n                div.style.left = '50%';\n                div.style.top = '50%';\n                div.style.transform = 'translate(-50%, -50%)';\n                div.style.width = '"@ + decimal(width as nat) + "px';\n                div.style.height = '"@ + decimal(height as nat) + "px';\n                div.style.border = '1px solid #ccc';\n                div.style.backgroundColor = '#fff';\n                div.style.boxShadow = '0 4px 8px rgba(0,0,0,0.1)';\n                div.style.zIndex = '1000';\n                div.innerHTML = '<h3>"@ + title + "</h3><div id=\""@ + id + "_content\"></div>';\n                document.body.appendChild(div);\n            }\n            "@
}

/// The script that creates a button's element in a window.
pub open spec fn button_dom(window_id: Seq<char>, button_id: Seq<char>, label: Seq<char>, x: u32, y: u32, width: u32) -> Seq<char> {
    "\n            const button = document.createElement('button');\n            button.id = '"@ + button_id + "';\n            button.textContent = '"@ + label + "';\n            button.style.position = 'absolute';\n            button.style.left = '"@ + decimal(x as nat) + "px';\n            button.style.top = '"@ + decimal(y as nat) + "px';\n            button.style.width = '"@ + decimal(width as nat) + "px';\n            button.style.padding = '8px 16px';\n            button.style.backgroundColor = '#007bff';\n            button.style.color = 'white';\n            button.style.border = 'none';\n            button.style.borderRadius = '4px';\n            button.style.cursor = 'pointer';\n            button.onclick = function() {\n                window.greaseButtonClicked = window.greaseButtonClicked || {};\n                window.greaseButtonClicked['"@ + button_id + "'] = true;\n            };\n            const content = document.getElementById('"@ + window_id + "_content');\n            if (content) {\n                content.appendChild(button);\n            }\n            "@
}

/// The script that creates a label's element in a window.
pub open spec fn label_dom(window_id: Seq<char>, label_id: Seq<char>, text: Seq<char>, x: u32, y: u32) -> Seq<char> {
    "\n            const label = document.createElement('div');\n            label.id = '"@ + label_id + "';\n            label.textContent = '"@ + text + "';\n            label.style.position = 'absolute';\n            label.style.left = '"@ + decimal(x as nat) + "px';\n            label.style.top = '"@ + decimal(y as nat) + "px';\n            label.style.fontFamily = 'Arial, sans-serif';\n            label.style.fontSize = '14px';\n            label.style.color = '#333';\n            const content = document.getElementById('"@ + window_id + "_content');\n            if (content) {\n                content.appendChild(label);\n            }\n            "@
}

fn window_script(id: &str, title: &str, width: u32, height: u32) -> (s: String)
    ensures
        s@ == window_dom(id@, title@, width, height),
{
        let mut s = String::new();
        append_str(&mut s, "\n            if (!document.getElementById('");
        append_str(&mut s, id);
        append_str(&mut s, "')) {\n                const div = document.createElement('div');\n                div.id = '");
        append_str(&mut s, id);
        append_str(&mut s, "';\n                div.style.position = 'fixed';\n                div.style.left = '50%';\n                div.style.top = '50%';\n                div.style.transform = 'translate(-50%, -50%)';\n                div.style.width = '");
        append_str(&mut s, usize_to_string(width as usize).as_str());
        append_str(&mut s, "px';\n                div.style.height = '");
        append_str(&mut s, usize_to_string(height as usize).as_str());
        append_str(&mut s, "px';\n                div.style.border = '1px solid #ccc';\n                div.style.backgroundColor = '#fff';\n                div.style.boxShadow = '0 4px 8px rgba(0,0,0,0.1)';\n                div.style.zIndex = '1000';\n                div.innerHTML = '<h3>");
        append_str(&mut s, title);
        append_str(&mut s, "</h3><div id=\"");
        append_str(&mut s, id);
        append_str(&mut s, "_content\"></div>';\n                document.body.appendChild(div);\n            }\n            ");
        s
}

fn button_script(window_id: &str, button_id: &str, label: &str, x: u32, y: u32, width: u32) -> (s: String)
    ensures
        s@ == button_dom(window_id@, button_id@, label@, x, y, width),
{
        let mut s = String::new();
        append_str(&mut s, "\n            const button = document.createElement('button');\n            button.id = '");
        append_str(&mut s, button_id);
        append_str(&mut s, "';\n            button.textContent = '");
        append_str(&mut s, label);
        append_str(&mut s, "';\n            button.style.position = 'absolute';\n            button.style.left = '");
        append_str(&mut s, usize_to_string(x as usize).as_str());
        append_str(&mut s, "px';\n            button.style.top = '");
        append_str(&mut s, usize_to_string(y as usize).as_str());
        append_str(&mut s, "px';\n            button.style.width = '");
        append_str(&mut s, usize_to_string(width as usize).as_str());
        append_str(&mut s, "px';\n            button.style.padding = '8px 16px';\n            button.style.backgroundColor = '#007bff';\n            button.style.color = 'white';\n            button.style.border = 'none';\n            button.style.borderRadius = '4px';\n            button.style.cursor = 'pointer';\n            button.onclick = function() {\n                window.greaseButtonClicked = window.greaseButtonClicked || {};\n                window.greaseButtonClicked['");
        append_str(&mut s, button_id);
        append_str(&mut s, "'] = true;\n            };\n            const content = document.getElementById('");
        append_str(&mut s, window_id);
        append_str(&mut s, "_content');\n            if (content) {\n                content.appendChild(button);\n            }\n            ");
        s
}

fn label_script(window_id: &str, label_id: &str, text: &str, x: u32, y: u32) -> (s: String)
    ensures
        s@ == label_dom(window_id@, label_id@, text@, x, y),
{
        let mut s = String::new();
        append_str(&mut s, "\n            const label = document.createElement('div');\n            label.id = '");
        append_str(&mut s, label_id);
        append_str(&mut s, "';\n            label.textContent = '");
        append_str(&mut s, text);
        append_str(&mut s, "';\n            label.style.position = 'absolute';\n            label.style.left = '");
        append_str(&mut s, usize_to_string(x as usize).as_str());
        append_str(&mut s, "px';\n            label.style.top = '");
        append_str(&mut s, usize_to_string(y as usize).as_str());
        append_str(&mut s, "px';\n            label.style.fontFamily = 'Arial, sans-serif';\n            label.style.fontSize = '14px';\n            label.style.color = '#333';\n            const content = document.getElementById('");
        append_str(&mut s, window_id);
        append_str(&mut s, "_content');\n            if (content) {\n                content.appendChild(label);\n            }\n            ");
        s
}

/// The script that shows or hides an element.
pub open spec fn display_script(id: Seq<char>, display: Seq<char>) -> Seq<char> {
    "const elem = document.getElementById('"@ + id + "'); if (elem) { elem.style.display = '"@ + display + "'; }"@
}

/// The script that sets an input's value.
pub open spec fn input_script(full_id: Seq<char>, value: Seq<char>) -> Seq<char> {
    "const elem = document.getElementById('"@ + full_id + "'); if (elem) { elem.value = '"@ + value + "'; }"@
}

fn display_text(id: &str, display: &str) -> (s: String)
    ensures
        s@ == display_script(id@, display@),
{
    let mut s = owned("const elem = document.getElementById('");
    append_str(&mut s, id);
    append_str(&mut s, "'); if (elem) { elem.style.display = '");
    append_str(&mut s, display);
    append_str(&mut s, "'; }");
    s
}

fn input_text(full_id: &str, value: &str) -> (s: String)
    ensures
        s@ == input_script(full_id@, value@),
{
    let mut s = owned("const elem = document.getElementById('");
    append_str(&mut s, full_id);
    append_str(&mut s, "'); if (elem) { elem.value = '");
    append_str(&mut s, value);
    append_str(&mut s, "'; }");
    s
}

/// `a_b`: a widget's identifier within its window.
fn joined(a: &str, b: &str) -> (s: String)
    ensures
        s@ == a@ + "_"@ + b@,
{
    let mut s = owned(a);
    append_str(&mut s, "_");
    append_str(&mut s, b);
    s
}

/// A window as the platform keeps it.
pub struct WindowSpec {
    pub id: Seq<char>,
    pub title: Seq<char>,
    pub width: u32,
    pub height: u32,
    pub visible: bool,
}

#[derive(Debug, Clone)]
struct WebWindow {
    id: String,
    title: String,
    width: u32,
    height: u32,
    visible: bool,
}

spec fn window_view(w: WebWindow) -> WindowSpec {
    WindowSpec { id: w.id@, title: w.title@, width: w.width, height: w.height, visible: w.visible }
}

/// The index of the window `id`, or -1.
pub open spec fn find_window(ws: Seq<WindowSpec>, id: Seq<char>) -> int
    decreases ws.len(),
{
    if ws.len() == 0 {
        -1
    } else if ws.last().id == id {
        ws.len() - 1
    } else {
        find_window(ws.drop_last(), id)
    }
}

/// Keeps a window: it replaces the one of the same identifier, or is added.
pub open spec fn put_window(ws: Seq<WindowSpec>, w: WindowSpec) -> Seq<WindowSpec> {
    let i = find_window(ws, w.id);
    if i >= 0 {
        ws.update(i, w)
    } else {
        ws.push(w)
    }
}

/// Makes the window `id`, if there is one, visible or not.
pub open spec fn set_visible(ws: Seq<WindowSpec>, id: Seq<char>, v: bool) -> Seq<WindowSpec> {
    let i = find_window(ws, id);
    if i >= 0 {
        ws.update(i, WindowSpec { visible: v, ..ws[i] })
    } else {
        ws
    }
}

/// The index of the button `id`, or -1.
pub open spec fn find_button(bs: Seq<(Seq<char>, bool)>, id: Seq<char>) -> int
    decreases bs.len(),
{
    if bs.len() == 0 {
        -1
    } else if bs.last().0 == id {
        bs.len() - 1
    } else {
        find_button(bs.drop_last(), id)
    }
}

/// Records a button's click state.
pub open spec fn put_button(bs: Seq<(Seq<char>, bool)>, id: Seq<char>, c: bool) -> Seq<(Seq<char>, bool)> {
    let i = find_button(bs, id);
    if i >= 0 {
        bs.update(i, (id, c))
    } else {
        bs.push((id, c))
    }
}

/// Whether the button `id` is known and clicked.
pub open spec fn is_clicked(bs: Seq<(Seq<char>, bool)>, id: Seq<char>) -> bool {
    find_button(bs, id) >= 0 && bs[find_button(bs, id)].1
}

/// The features of the browser platform.
pub open spec fn web_supports(f: UIFeature) -> bool {
    match f {
        UIFeature::WebAssemblyIntegration => true,
        UIFeature::MultipleWindows => true,
        UIFeature::CustomTheming => true,
        UIFeature::NativeMenus => false,
        UIFeature::SystemTray => false,
        UIFeature::HardwareAcceleration => true,
    }
}

/// The browser platform.
pub struct WebPlatform {
    next_id: u32,
    windows: Vec<WebWindow>,
    button_states: Vec<(String, bool)>,
    event_loop_running: bool,
    scripts: Vec<String>,
}

impl WebPlatform {
    pub closed spec fn next(&self) -> u32 {
        self.next_id
    }

    pub closed spec fn windows(&self) -> Seq<WindowSpec> {
        self.windows@.map_values(|w: WebWindow| window_view(w))
    }

    pub closed spec fn buttons(&self) -> Seq<(Seq<char>, bool)> {
        self.button_states@.map_values(|b: (String, bool)| (b.0@, b.1))
    }

    pub closed spec fn running(&self) -> bool {
        self.event_loop_running
    }

    /// The scripts the platform ran, in order.
    pub closed spec fn scripts(&self) -> Seq<Seq<char>> {
        self.scripts@.map_values(|s: String| s@)
    }

    /// No windows, no buttons, no scripts; the event loop stopped; identifiers from 1.
    pub fn new() -> (r: Self)
        ensures
            r.next() == 1,
            r.windows() == Seq::<WindowSpec>::empty(),
            r.buttons() == Seq::<(Seq<char>, bool)>::empty(),
            !r.running(),
            r.scripts() == Seq::<Seq<char>>::empty(),
    {
        let r = WebPlatform {
            next_id: 1,
            windows: Vec::new(),
            button_states: Vec::new(),
            event_loop_running: false,
            scripts: Vec::new(),
        };
        assert(r.windows() =~= Seq::empty());
        assert(r.buttons() =~= Seq::empty());
        assert(r.scripts() =~= Seq::empty());
        r
    }

    /// A fresh widget identifier, `widget_` and a counter.
    pub fn next_id(&mut self) -> (r: String)
        requires
            old(self).next() < u32::MAX,
        ensures
            r@ == "widget_"@ + decimal(old(self).next() as nat),
            final(self).next() == old(self).next() + 1,
            final(self).windows() == old(self).windows(),
            final(self).buttons() == old(self).buttons(),
            final(self).running() == old(self).running(),
            final(self).scripts() == old(self).scripts(),
    {
        let mut id = owned("widget_");
        append_str(&mut id, usize_to_string(self.next_id as usize).as_str());
        self.next_id = self.next_id + 1;
        id
    }

    /// The scripts the platform ran, in order.
    pub fn executed_scripts(&self) -> (r: &Vec<String>)
        ensures
            r@.map_values(|s: String| s@) == self.scripts(),
    {
        &self.scripts
    }

    fn execute_js(&mut self, code: String)
        ensures
            final(self).scripts() == old(self).scripts().push(code@),
            final(self).next() == old(self).next(),
            final(self).windows() == old(self).windows(),
            final(self).buttons() == old(self).buttons(),
            final(self).running() == old(self).running(),
    {
        let ghost before = self.scripts@;
        self.scripts.push(code);
        assert(self.scripts() =~= before.map_values(|s: String| s@).push(code@));
    }

    fn find_window(&self, id: &str) -> (r: Option<usize>)
        ensures
            match r {
                Some(i) => i == find_window(self.windows(), id@) && i < self.windows@.len(),
                None => find_window(self.windows(), id@) == -1,
            },
    {
        let ghost t = self.windows();
        let mut i = self.windows.len();
        assert(t.take(i as int) =~= t);
        while i > 0
            invariant
                i <= self.windows@.len(),
                t == self.windows(),
                find_window(t, id@) == find_window(t.take(i as int), id@),
            decreases i,
        {
            assert(t.take(i as int).drop_last() =~= t.take(i - 1));
            if str_eq(self.windows[i - 1].id.as_str(), id) {
                return Some(i - 1);
            }
            i = i - 1;
        }
        assert(t.take(0) =~= Seq::<WindowSpec>::empty());
        None
    }

    fn find_button(&self, id: &str) -> (r: Option<usize>)
        ensures
            match r {
                Some(i) => i == find_button(self.buttons(), id@) && i < self.button_states@.len(),
                None => find_button(self.buttons(), id@) == -1,
            },
    {
        let ghost t = self.buttons();
        let mut i = self.button_states.len();
        assert(t.take(i as int) =~= t);
        while i > 0
            invariant
                i <= self.button_states@.len(),
                t == self.buttons(),
                find_button(t, id@) == find_button(t.take(i as int), id@),
            decreases i,
        {
            assert(t.take(i as int).drop_last() =~= t.take(i - 1));
            if str_eq(self.button_states[i - 1].0.as_str(), id) {
                return Some(i - 1);
            }
            i = i - 1;
        }
        assert(t.take(0) =~= Seq::<(Seq<char>, bool)>::empty());
        None
    }

    fn put_button(&mut self, id: String, clicked: bool)
        ensures
            final(self).buttons() == put_button(old(self).buttons(), id@, clicked),
            final(self).scripts() == old(self).scripts(),
            final(self).next() == old(self).next(),
            final(self).windows() == old(self).windows(),
            final(self).running() == old(self).running(),
    {
        let ghost t = self.buttons();
        match self.find_button(id.as_str()) {
            Some(i) => {
                let ghost idv = id@;
                self.button_states.set(i, (id, clicked));
                assert(self.buttons() =~= t.update(i as int, (idv, clicked)));
            },
            None => {
                let ghost idv = id@;
                self.button_states.push((id, clicked));
                assert(self.buttons() =~= t.push((idv, clicked)));
            },
        }
    }

    fn set_window_visible(&mut self, id: &str, visible: bool)
        ensures
            final(self).windows() == set_visible(old(self).windows(), id@, visible),
            final(self).scripts() == old(self).scripts(),
            final(self).next() == old(self).next(),
            final(self).buttons() == old(self).buttons(),
            final(self).running() == old(self).running(),
    {
        let ghost t = self.windows();
        match self.find_window(id) {
            Some(i) => {
                let w = WebWindow {
                    id: self.windows[i].id.clone(),
                    title: self.windows[i].title.clone(),
                    width: self.windows[i].width,
                    height: self.windows[i].height,
                    visible,
                };
                self.windows.set(i, w);
                assert(self.windows() =~= t.update(i as int, WindowSpec { visible, ..t[i as int] }));
            },
            None => {},
        }
    }
}

impl UIPlatform for WebPlatform {
    fn create_window(&mut self, title: &str, width: u32, height: u32, id: &str) -> (r: Result<WindowHandle, UIError>)
        ensures
            r matches Ok(h) && h.id@ == id@ && h.platform_handle.data == 0,
            final(self).windows() == put_window(
                old(self).windows(),
                WindowSpec { id: id@, title: title@, width, height, visible: false },
            ),
            final(self).scripts() == old(self).scripts().push(window_dom(id@, title@, width, height)),
            final(self).buttons() == old(self).buttons(),
            final(self).running() == old(self).running(),
            final(self).next() == old(self).next(),
    {
        let window = WebWindow { id: owned(id), title: owned(title), width, height, visible: false };
        let ghost t = self.windows();
        match self.find_window(id) {
            Some(i) => {
                self.windows.set(i, window);
                assert(self.windows() =~= t.update(i as int, WindowSpec { id: id@, title: title@, width, height, visible: false }));
            },
            None => {
                self.windows.push(window);
                assert(self.windows() =~= t.push(WindowSpec { id: id@, title: title@, width, height, visible: false }));
            },
        }
        self.execute_js(window_script(id, title, width, height));
        Ok(WindowHandle { id: owned(id), platform_handle: PlatformWindowHandle { data: 0 } })
    }

    fn create_button(&mut self, window: &WindowHandle, id: &str, label: &str, x: u32, y: u32, width: u32) -> (r: Result<ButtonHandle, UIError>)
        ensures
            r matches Ok(h) && h.id@ == window.id@ + "_"@ + id@ && h.platform_handle.data == 0,
            final(self).scripts() == old(self).scripts().push(
                button_dom(window.id@, window.id@ + "_"@ + id@, label@, x, y, width),
            ),
            final(self).buttons() == put_button(old(self).buttons(), window.id@ + "_"@ + id@, false),
            final(self).windows() == old(self).windows(),
            final(self).running() == old(self).running(),
            final(self).next() == old(self).next(),
    {
        let button_id = joined(window.id.as_str(), id);
        self.execute_js(button_script(window.id.as_str(), button_id.as_str(), label, x, y, width));
        self.put_button(button_id.clone(), false);
        Ok(ButtonHandle { id: button_id, platform_handle: PlatformButtonHandle { data: 0 } })
    }

    fn create_label(&mut self, window: &WindowHandle, id: &str, text: &str, x: u32, y: u32) -> (r: Result<LabelHandle, UIError>)
        ensures
            r matches Ok(h) && h.id@ == window.id@ + "_"@ + id@ && h.platform_handle.data == 0,
            final(self).scripts() == old(self).scripts().push(
                label_dom(window.id@, window.id@ + "_"@ + id@, text@, x, y),
            ),
            final(self).buttons() == old(self).buttons(),
            final(self).windows() == old(self).windows(),
            final(self).running() == old(self).running(),
            final(self).next() == old(self).next(),
    {
        let label_id = joined(window.id.as_str(), id);
        self.execute_js(label_script(window.id.as_str(), label_id.as_str(), text, x, y));
        Ok(LabelHandle { id: label_id, platform_handle: PlatformLabelHandle { data: 0 } })
    }

    fn show_window(&mut self, window: &WindowHandle) -> (r: Result<(), UIError>)
        ensures
            r is Ok,
            final(self).scripts() == old(self).scripts().push(display_script(window.id@, "block"@)),
            final(self).windows() == set_visible(old(self).windows(), window.id@, true),
            final(self).buttons() == old(self).buttons(),
            final(self).running() == old(self).running(),
            final(self).next() == old(self).next(),
    {
        self.execute_js(display_text(window.id.as_str(), "block"));
        self.set_window_visible(window.id.as_str(), true);
        Ok(())
    }

    fn hide_window(&mut self, window: &WindowHandle) -> (r: Result<(), UIError>)
        ensures
            r is Ok,
            final(self).scripts() == old(self).scripts().push(display_script(window.id@, "none"@)),
            final(self).windows() == set_visible(old(self).windows(), window.id@, false),
            final(self).buttons() == old(self).buttons(),
            final(self).running() == old(self).running(),
            final(self).next() == old(self).next(),
    {
        self.execute_js(display_text(window.id.as_str(), "none"));
        self.set_window_visible(window.id.as_str(), false);
        Ok(())
    }

    fn button_clicked(&self, button: &ButtonHandle) -> (r: bool)
        ensures
            r == is_clicked(self.buttons(), button.id@),
    {
        match self.find_button(button.id.as_str()) {
            Some(i) => self.button_states[i].1,
            None => false,
        }
    }

    fn reset_button_click(&mut self, button: &ButtonHandle)
        ensures
            final(self).buttons() == put_button(old(self).buttons(), button.id@, false),
            final(self).scripts() == old(self).scripts(),
            final(self).windows() == old(self).windows(),
            final(self).running() == old(self).running(),
            final(self).next() == old(self).next(),
    {
        self.put_button(button.id.clone(), false);
    }

    fn get_input_value(&self, window: &WindowHandle, input_id: &str) -> (r: Result<String, UIError>)
        ensures
            r matches Ok(v) && v@ == Seq::<char>::empty(),
    {
        Ok(String::new())
    }

    fn set_input_value(&mut self, window: &WindowHandle, input_id: &str, value: &str) -> (r: Result<(), UIError>)
        ensures
            r is Ok,
            final(self).scripts() == old(self).scripts().push(
                input_script(window.id@ + "_"@ + input_id@, value@),
            ),
            final(self).windows() == old(self).windows(),
            final(self).buttons() == old(self).buttons(),
            final(self).running() == old(self).running(),
            final(self).next() == old(self).next(),
    {
        let full_id = joined(window.id.as_str(), input_id);
        self.execute_js(input_text(full_id.as_str(), value));
        Ok(())
    }

    fn run_event_loop(&mut self) -> (r: Result<(), UIError>)
        ensures
            old(self).running() ==> (r matches Err(UIError::EventLoopError(m)) && m@ == "Event loop already running"@),
            old(self).running() ==> final(self).running(),
            !old(self).running() ==> r is Ok && final(self).running(),
            final(self).scripts() == old(self).scripts(),
            final(self).windows() == old(self).windows(),
            final(self).buttons() == old(self).buttons(),
            final(self).next() == old(self).next(),
    {
        if self.event_loop_running {
            return Err(UIError::EventLoopError(owned("Event loop already running")));
        }
        self.event_loop_running = true;
        Ok(())
    }

    fn stop_event_loop(&mut self) -> (r: Result<(), UIError>)
        ensures
            r is Ok,
            !final(self).running(),
            final(self).scripts() == old(self).scripts(),
            final(self).windows() == old(self).windows(),
            final(self).buttons() == old(self).buttons(),
            final(self).next() == old(self).next(),
    {
        self.event_loop_running = false;
        Ok(())
    }

    fn platform_name(&self) -> (r: &'static str)
        ensures
            r@ == "Web"@,
    {
        "Web"
    }

    fn supports_feature(&self, feature: UIFeature) -> (r: bool)
        ensures
            r == web_supports(feature),
    {
        match feature {
            UIFeature::WebAssemblyIntegration => true,
            UIFeature::MultipleWindows => true,
            UIFeature::CustomTheming => true,
            UIFeature::NativeMenus => false,
            UIFeature::SystemTray => false,
            UIFeature::HardwareAcceleration => true,
        }
    }
}

} // verus!
