//! The tools as the user sees them: toolbar buttons and keys.

use vstd::prelude::*;

use crate::annotation::Tool;
use crate::toolbar;
use crate::toolbar::{ItemView, ToolbarItem};

verus! {

/// The tools in the order of the toolbar.
pub open spec fn all_tools() -> Seq<Tool> {
    seq![
        Tool::Select,
        Tool::Rect,
        Tool::Ellipse,
        Tool::Line,
        Tool::Arrow,
        Tool::Highlight,
        Tool::Redact,
        Tool::Number,
        Tool::Text,
    ]
}

/// What the button of a tool says.
pub open spec fn label(tool: Tool) -> Seq<char> {
    match tool {
        Tool::Select => "选择"@,
        Tool::Rect => "矩形"@,
        Tool::Ellipse => "椭圆"@,
        Tool::Line => "直线"@,
        Tool::Arrow => "箭头"@,
        Tool::Highlight => "高亮"@,
        Tool::Redact => "打码"@,
        Tool::Number => "序号"@,
        Tool::Text => "文字"@,
    }
}

/// The key of a tool.
pub open spec fn key_of(tool: Tool) -> char {
    match tool {
        Tool::Select => 'v',
        Tool::Rect => 'r',
        Tool::Ellipse => 'o',
        Tool::Line => 'l',
        Tool::Arrow => 'a',
        Tool::Highlight => 'h',
        Tool::Redact => 'b',
        Tool::Number => 'n',
        Tool::Text => 't',
    }
}

/// The tool of a button: its position in the toolbar.
pub open spec fn with_id(id: u32) -> Option<Tool> {
    if id < all_tools().len() {
        Some(all_tools()[id as int])
    } else {
        None
    }
}

/// The tool of a key.
pub open spec fn with_key(c: char) -> Option<Tool> {
    if exists|tool: Tool| key_of(tool) == c {
        Some(choose|tool: Tool| key_of(tool) == c)
    } else {
        None
    }
}

/// The buttons of the toolbar while a tool is in use.
pub open spec fn buttons(current: Tool) -> Seq<ItemView> {
    Seq::new(
        all_tools().len(),
        |i: int|
            ItemView {
                id: i as u32,
                label: label(all_tools()[i]),
                selected: all_tools()[i] == current,
            },
    )
}

fn label_of(tool: Tool) -> (r: &'static str)
    ensures
        r@ == label(tool),
{
    match tool {
        Tool::Select => "选择",
        Tool::Rect => "矩形",
        Tool::Ellipse => "椭圆",
        Tool::Line => "直线",
        Tool::Arrow => "箭头",
        Tool::Highlight => "高亮",
        Tool::Redact => "打码",
        Tool::Number => "序号",
        Tool::Text => "文字",
    }
}

/// The tool whose button has an identifier.
pub fn tool_from_id(id: u32) -> (r: Option<Tool>)
    ensures
        r == with_id(id),
{
    match id {
        0 => Some(Tool::Select),
        1 => Some(Tool::Rect),
        2 => Some(Tool::Ellipse),
        3 => Some(Tool::Line),
        4 => Some(Tool::Arrow),
        5 => Some(Tool::Highlight),
        6 => Some(Tool::Redact),
        7 => Some(Tool::Number),
        8 => Some(Tool::Text),
        _ => None,
    }
}

/// The tool of a key. The letters are those that users of similar programs
/// know.
pub fn tool_from_key(c: char) -> (r: Option<Tool>)
    ensures
        r == with_key(c),
{
    let r: Option<Tool> = match c {
        'v' => Some(Tool::Select),
        'r' => Some(Tool::Rect),
        'o' => Some(Tool::Ellipse),
        'l' => Some(Tool::Line),
        'a' => Some(Tool::Arrow),
        'h' => Some(Tool::Highlight),
        'b' => Some(Tool::Redact),
        'n' => Some(Tool::Number),
        't' => Some(Tool::Text),
        _ => None,
    };
    proof {
        if let Some(tool) = r {
            assert(key_of(tool) == c);
        }
        if exists|tool: Tool| key_of(tool) == c {
            let tool = choose|tool: Tool| key_of(tool) == c;
            assert(key_of(tool) == c);
            assert(r == Some(tool));
        }
    }
    r
}

/// The buttons of the toolbar while a tool is in use.
pub fn items_for(current: Tool) -> (r: Vec<ToolbarItem>)
    ensures
        toolbar::item_views(r@) == buttons(current),
{
    let mut items: Vec<ToolbarItem> = Vec::new();
    let mut id: u32 = 0;
    while id < 9
        invariant
            id <= 9,
            toolbar::item_views(items@) == buttons(current).take(id as int),
        decreases 9 - id,
    {
        let ghost before = toolbar::item_views(items@);
        if let Some(tool) = tool_from_id(id) {
            items.push(
                ToolbarItem { id, label: label_of(tool).to_owned(), selected: tool == current },
            );
            proof {
                assert(items@.last()@ == buttons(current)[id as int]);
                assert(toolbar::item_views(items@) =~= before.push(buttons(current)[id as int]));
            }
        }
        id = id + 1;
        proof {
            assert(toolbar::item_views(items@) =~= buttons(current).take(id as int));
        }
    }
    proof {
        assert(buttons(current).take(9) =~= buttons(current));
    }
    items
}

/// Every tool has a button and a key, and no two tools share one.
pub proof fn law_every_tool_can_be_reached(tool: Tool)
    ensures
        with_key(key_of(tool)) == Some(tool),
        exists|id: u32| with_id(id) == Some(tool),
{
    let found = with_key(key_of(tool))->0;
    assert(key_of(found) == key_of(tool));
    assert(found == tool);
    let id: u32 = match tool {
        Tool::Select => 0,
        Tool::Rect => 1,
        Tool::Ellipse => 2,
        Tool::Line => 3,
        Tool::Arrow => 4,
        Tool::Highlight => 5,
        Tool::Redact => 6,
        Tool::Number => 7,
        Tool::Text => 8,
    };
    assert(with_id(id) == Some(tool));
}

/// Two buttons never stand for the same tool.
pub proof fn law_buttons_are_distinct(i: u32, j: u32)
    requires
        with_id(i) is Some,
        with_id(i) == with_id(j),
    ensures
        i == j,
{
}

/// One button is selected, the one of the tool in use, and a click on any button
/// takes up the tool that it shows.
pub proof fn law_one_button_is_selected(current: Tool, i: int)
    requires
        0 <= i < buttons(current).len(),
    ensures
        with_id(buttons(current)[i].id) == Some(all_tools()[i]),
        buttons(current)[i].label == label(all_tools()[i]),
        buttons(current)[i].selected <==> all_tools()[i] == current,
        exists|k: int| 0 <= k < buttons(current).len() && (#[trigger] buttons(current)[k]).selected,
        forall|k: int|
            0 <= k < buttons(current).len() && (#[trigger] buttons(current)[k]).selected
                && buttons(current)[i].selected ==> k == i,
{
    law_every_tool_can_be_reached(current);
    let id = choose|id: u32| with_id(id) == Some(current);
    assert(buttons(current)[id as int].selected);
}

} // verus!
