//! The tray icon's StatusNotifierItem properties and its DBusMenu: which
//! items exist, what they hold and what a click on them does.
use vstd::prelude::*;

use crate::text::{chars_are, chars_of, same_str};

verus! {

pub const AUTO_SHOW_ID: i32 = 5;

#[derive(Clone, Copy, Debug, PartialEq, Eq, Structural)]
pub enum TrayAction {
    Toggle,
    Show,
    Hide,
    Quit,
    ToggleAutoShow,
}

/// The menu items under the root (id 0), in display order.
pub open spec fn menu_item_ids() -> Seq<i32> {
    seq![1i32, 2, AUTO_SHOW_ID, 3, 4]
}

pub fn menu_items() -> (r: Vec<i32>)
    ensures
        r@ == menu_item_ids(),
{
    let r = vec![1, 2, AUTO_SHOW_ID, 3, 4];
    assert(r@ =~= menu_item_ids());
    r
}

/// What a method call on the tray item does: activation toggles the keyboard.
pub fn item_method_action(method: &str) -> (r: Option<TrayAction>)
    ensures
        r == (if method@ == "Activate"@ || method@ == "SecondaryActivate"@ {
            Some(TrayAction::Toggle)
        } else {
            None
        }),
{
    let m = chars_of(method);
    if chars_are(&m, "Activate") || chars_are(&m, "SecondaryActivate") {
        Some(TrayAction::Toggle)
    } else {
        None
    }
}

/// A menu property value.
#[derive(Clone, Copy, Debug, PartialEq, Eq)]
pub enum PropValue {
    Text(&'static str),
    Flag(bool),
    Int(i32),
}

/// The label of a labelled menu item.
pub open spec fn item_label(id: i32) -> &'static str {
    if id == 1 {
        "Показать клавиатуру"
    } else if id == 2 {
        "Скрыть клавиатуру"
    } else if id == AUTO_SHOW_ID {
        "Автоматически показывать клавиатуру"
    } else {
        "Выход"
    }
}

/// All properties of a menu item; `None` for an unknown item.
pub open spec fn item_properties(id: i32, auto_show: bool) -> Option<Seq<(&'static str, PropValue)>> {
    if id == 0 {
        Some(seq![("children-display", PropValue::Text("submenu"))])
    } else if id == 1 || id == 2 || id == 4 || id == AUTO_SHOW_ID {
        Some(
            seq![
                ("label", PropValue::Text(item_label(id))),
                ("enabled", PropValue::Flag(true)),
                ("visible", PropValue::Flag(true)),
            ] + if id == AUTO_SHOW_ID {
                seq![
                    ("toggle-type", PropValue::Text("checkmark")),
                    ("toggle-state", PropValue::Int(
                        if auto_show {
                            1i32
                        } else {
                            0i32
                        },
                    )),
                ]
            } else {
                Seq::empty()
            },
        )
    } else if id == 3 {
        Some(seq![("type", PropValue::Text("separator"))])
    } else {
        None
    }
}

/// The properties whose names are listed (all when the list is empty).
pub open spec fn keep_named(
    props: Seq<(&'static str, PropValue)>,
    names: Seq<Seq<char>>,
) -> Seq<(&'static str, PropValue)>
    decreases props.len(),
{
    if names.len() == 0 || props.len() == 0 {
        props
    } else {
        (if names.contains(props[0].0@) {
            seq![props[0]]
        } else {
            Seq::empty()
        }) + keep_named(props.drop_first(), names)
    }
}

/// The properties of a menu item, restricted to the listed names.
pub open spec fn menu_item_properties(id: i32, names: Seq<Seq<char>>, auto_show: bool) -> Option<
    Seq<(&'static str, PropValue)>,
> {
    match item_properties(id, auto_show) {
        Some(p) => Some(keep_named(p, names)),
        None => None,
    }
}

fn all_item_properties(id: i32, auto_show: bool) -> (r: Option<Vec<(&'static str, PropValue)>>)
    ensures
        match item_properties(id, auto_show) {
            Some(p) => r matches Some(v) && v@ == p,
            None => r is None,
        },
{
    if id == 0 {
        let v = vec![("children-display", PropValue::Text("submenu"))];
        assert(v@ =~= seq![("children-display", PropValue::Text("submenu"))]);
        Some(v)
    } else if id == 1 || id == 2 || id == 4 || id == AUTO_SHOW_ID {
        let label = if id == 1 {
            "Показать клавиатуру"
        } else if id == 2 {
            "Скрыть клавиатуру"
        } else if id == AUTO_SHOW_ID {
            "Автоматически показывать клавиатуру"
        } else {
            "Выход"
        };
        let mut v = vec![
            ("label", PropValue::Text(label)),
            ("enabled", PropValue::Flag(true)),
            ("visible", PropValue::Flag(true)),
        ];
        if id == AUTO_SHOW_ID {
            v.push(("toggle-type", PropValue::Text("checkmark")));
            v.push(
                (
                    "toggle-state",
                    PropValue::Int(
                        if auto_show {
                            1
                        } else {
                            0
                        },
                    ),
                ),
            );
        }
        assert(v@ =~= item_properties(id, auto_show)->Some_0);
        Some(v)
    } else if id == 3 {
        let v = vec![("type", PropValue::Text("separator"))];
        assert(v@ =~= seq![("type", PropValue::Text("separator"))]);
        Some(v)
    } else {
        None
    }
}

/// Whether the name is listed.
fn is_listed(names: &[String], name: &str) -> (r: bool)
    ensures
        r == names@.map_values(|s: String| s@).contains(name@),
{
    let ghost all = names@.map_values(|s: String| s@);
    let mut i: usize = 0;
    while i < names.len()
        invariant
            i <= names@.len(),
            all == names@.map_values(|s: String| s@),
            forall|k: int| 0 <= k < i ==> all[k] != name@,
        decreases names@.len() - i,
    {
        if same_str(names[i].as_str(), name) {
            assert(all[i as int] == name@);
            return true;
        }
        i = i + 1;
    }
    false
}

/// The properties of a menu item, restricted to `names` unless it is empty.
pub fn menu_properties(id: i32, names: &[String], auto_show: bool) -> (r: Option<
    Vec<(&'static str, PropValue)>,
>)
    ensures
        match menu_item_properties(id, names@.map_values(|s: String| s@), auto_show) {
            Some(p) => r matches Some(v) && v@ == p,
            None => r is None,
        },
{
    let ghost wanted = names@.map_values(|s: String| s@);
    let props = match all_item_properties(id, auto_show) {
        Some(p) => p,
        None => {
            return None;
        },
    };
    if names.len() == 0 {
        return Some(props);
    }
    let mut kept: Vec<(&'static str, PropValue)> = Vec::new();
    let mut i: usize = 0;
    assert(props@.skip(0) =~= props@);
    while i < props.len()
        invariant
            i <= props@.len(),
            wanted == names@.map_values(|s: String| s@),
            wanted.len() > 0,
            keep_named(props@, wanted) == kept@ + keep_named(props@.skip(i as int), wanted),
        decreases props@.len() - i,
    {
        let ghost rest = props@.skip(i as int);
        assert(rest[0] == props@[i as int]);
        assert(rest.drop_first() =~= props@.skip(i + 1));
        let ghost before = kept@;
        if is_listed(names, props[i].0) {
            kept.push(props[i]);
            assert(before.push(props@[i as int]) + keep_named(rest.drop_first(), wanted)
                =~= before + (seq![props@[i as int]] + keep_named(rest.drop_first(), wanted)));
        } else {
            assert(before + keep_named(rest.drop_first(), wanted) =~= before + (Seq::empty()
                + keep_named(rest.drop_first(), wanted)));
        }
        i = i + 1;
    }
    assert(kept@ + keep_named(props@.skip(props@.len() as int), wanted) =~= kept@);
    Some(kept)
}

/// A menu item with its properties and children.
#[derive(Debug, PartialEq)]
pub struct MenuLayout {
    pub id: i32,
    pub properties: Vec<(&'static str, PropValue)>,
    pub children: Vec<MenuLayout>,
}

/// The layout of menu item `id`: its properties, and for the root at a
/// depth other than 0 the five items as children (without children of their own).
pub open spec fn is_menu_layout(
    l: MenuLayout,
    id: i32,
    depth: i32,
    names: Seq<Seq<char>>,
    auto_show: bool,
) -> bool {
    &&& l.id == id
    &&& menu_item_properties(id, names, auto_show) == Some(l.properties@)
    &&& if id == 0 && depth != 0 {
        &&& l.children@.len() == 5
        &&& forall|i: int|
            0 <= i < 5 ==> {
                &&& (#[trigger] l.children@[i]).id == menu_item_ids()[i]
                &&& menu_item_properties(menu_item_ids()[i], names, auto_show) == Some(
                    l.children@[i].properties@,
                )
                &&& l.children@[i].children@.len() == 0
            }
    } else {
        l.children@.len() == 0
    }
}

/// The layout of menu item `id` to the given depth; `None` for an unknown item.
pub fn menu_layout(id: i32, depth: i32, names: &[String], auto_show: bool) -> (r: Option<MenuLayout>)
    ensures
        r is None <==> item_properties(id, auto_show) is None,
        r matches Some(l) ==> is_menu_layout(l, id, depth, names@.map_values(|s: String| s@), auto_show),
{
    let props = match menu_properties(id, names, auto_show) {
        Some(p) => p,
        None => {
            return None;
        },
    };
    let mut children: Vec<MenuLayout> = Vec::new();
    if id == 0 && depth != 0 {
        let items = menu_items();
        let mut i: usize = 0;
        while i < 5
            invariant
                i <= 5,
                items@ == menu_item_ids(),
                children@.len() == i,
                forall|k: int|
                    0 <= k < i ==> {
                        &&& (#[trigger] children@[k]).id == menu_item_ids()[k]
                        &&& menu_item_properties(
                            menu_item_ids()[k],
                            names@.map_values(|s: String| s@),
                            auto_show,
                        ) == Some(children@[k].properties@)
                        &&& children@[k].children@.len() == 0
                    },
            decreases 5 - i,
        {
            let child = items[i];
            let child_props = match menu_properties(child, names, auto_show) {
                Some(p) => p,
                None => {
                    assert(false);
                    return None;
                },
            };
            children.push(MenuLayout { id: child, properties: child_props, children: Vec::new() });
            i = i + 1;
        }
    }
    Some(MenuLayout { id, properties: props, children })
}

/// A known menu item: the root or one of the five items.
pub open spec fn is_valid_menu_id(id: i32) -> bool {
    id == 0 || menu_item_ids().contains(id)
}

pub fn valid_menu_id(id: i32) -> (r: bool)
    ensures
        r == is_valid_menu_id(id),
{
    let r = id == 0 || id == 1 || id == 2 || id == AUTO_SHOW_ID || id == 3 || id == 4;
    proof {
        let ids = menu_item_ids();
        if ids.contains(id) {
            let k = choose|k: int| 0 <= k < ids.len() && ids[k] == id;
            assert(0 <= k < 5);
        }
        if id == 1 {
            assert(ids[0] == 1);
        }
        if id == 2 {
            assert(ids[1] == 2);
        }
        if id == AUTO_SHOW_ID {
            assert(ids[2] == AUTO_SHOW_ID);
        }
        if id == 3 {
            assert(ids[3] == 3);
        }
        if id == 4 {
            assert(ids[4] == 4);
        }
    }
    r
}

/// What an event on a menu item does: only a click on Show, Hide, the
/// auto-show checkmark or Quit acts; an unknown item is an error.
pub open spec fn menu_event_result(id: i32, event: Seq<char>) -> Result<Option<TrayAction>, &'static str> {
    if !is_valid_menu_id(id) {
        Err("Unknown menu item")
    } else if event == "clicked"@ {
        Ok(
            if id == 1 {
                Some(TrayAction::Show)
            } else if id == 2 {
                Some(TrayAction::Hide)
            } else if id == 4 {
                Some(TrayAction::Quit)
            } else if id == AUTO_SHOW_ID {
                Some(TrayAction::ToggleAutoShow)
            } else {
                None
            },
        )
    } else {
        Ok(None)
    }
}

pub fn menu_event(id: i32, event: &str) -> (r: Result<Option<TrayAction>, &'static str>)
    ensures
        r == menu_event_result(id, event@),
{
    if !valid_menu_id(id) {
        return Err("Unknown menu item");
    }
    if chars_are(&chars_of(event), "clicked") {
        Ok(
            if id == 1 {
                Some(TrayAction::Show)
            } else if id == 2 {
                Some(TrayAction::Hide)
            } else if id == 4 {
                Some(TrayAction::Quit)
            } else if id == AUTO_SHOW_ID {
                Some(TrayAction::ToggleAutoShow)
            } else {
                None
            },
        )
    } else {
        Ok(None)
    }
}

/// The properties that change when auto-show is switched: the checkmark's state.
pub fn auto_show_update(enabled: bool) -> (r: Vec<(i32, Vec<(&'static str, PropValue)>)>)
    ensures
        r@.len() == 1,
        r@[0].0 == AUTO_SHOW_ID,
        r@[0].1@ == seq![
            ("toggle-state", PropValue::Int(
                if enabled {
                    1i32
                } else {
                    0i32
                },
            )),
        ],
{
    let props = vec![
        (
            "toggle-state",
            PropValue::Int(
                if enabled {
                    1
                } else {
                    0
                },
            ),
        ),
    ];
    let r = vec![(AUTO_SHOW_ID, props)];
    r
}

/// The methods of the DBusMenu interface.
#[derive(Clone, Copy, Debug, PartialEq, Eq, Structural)]
pub enum MenuMethod {
    GetLayout,
    GetGroupProperties,
    GetProperty,
    Event,
    EventGroup,
    AboutToShow,
    AboutToShowGroup,
}

/// The method of a DBusMenu call; `None` for an unknown method.
pub fn menu_method(name: &str) -> (r: Option<MenuMethod>)
    ensures
        r == (if name@ == "GetLayout"@ {
            Some(MenuMethod::GetLayout)
        } else if name@ == "GetGroupProperties"@ {
            Some(MenuMethod::GetGroupProperties)
        } else if name@ == "GetProperty"@ {
            Some(MenuMethod::GetProperty)
        } else if name@ == "Event"@ {
            Some(MenuMethod::Event)
        } else if name@ == "EventGroup"@ {
            Some(MenuMethod::EventGroup)
        } else if name@ == "AboutToShow"@ {
            Some(MenuMethod::AboutToShow)
        } else if name@ == "AboutToShowGroup"@ {
            Some(MenuMethod::AboutToShowGroup)
        } else {
            None
        }),
{
    let n = chars_of(name);
    if chars_are(&n, "GetLayout") {
        Some(MenuMethod::GetLayout)
    } else if chars_are(&n, "GetGroupProperties") {
        Some(MenuMethod::GetGroupProperties)
    } else if chars_are(&n, "GetProperty") {
        Some(MenuMethod::GetProperty)
    } else if chars_are(&n, "Event") {
        Some(MenuMethod::Event)
    } else if chars_are(&n, "EventGroup") {
        Some(MenuMethod::EventGroup)
    } else if chars_are(&n, "AboutToShow") {
        Some(MenuMethod::AboutToShow)
    } else if chars_are(&n, "AboutToShowGroup") {
        Some(MenuMethod::AboutToShowGroup)
    } else {
        None
    }
}

/// The error of a call whose arguments do not have the method's types.
pub fn invalid_arguments(method: MenuMethod) -> (r: &'static str)
    ensures
        r == match method {
            MenuMethod::GetLayout => "Invalid layout arguments",
            MenuMethod::GetGroupProperties | MenuMethod::GetProperty => "Invalid property arguments",
            MenuMethod::Event | MenuMethod::EventGroup => "Invalid event arguments",
            MenuMethod::AboutToShow | MenuMethod::AboutToShowGroup => "Invalid menu arguments",
        },
{
    match method {
        MenuMethod::GetLayout => "Invalid layout arguments",
        MenuMethod::GetGroupProperties | MenuMethod::GetProperty => "Invalid property arguments",
        MenuMethod::Event | MenuMethod::EventGroup => "Invalid event arguments",
        MenuMethod::AboutToShow | MenuMethod::AboutToShowGroup => "Invalid menu arguments",
    }
}

/// A DBusMenu call with its decoded arguments.
#[derive(Clone, Debug)]
pub enum MenuRequest {
    GetLayout { id: i32, depth: i32, names: Vec<String> },
    GetGroupProperties { ids: Vec<i32>, names: Vec<String> },
    GetProperty { id: i32, name: String },
    Event { id: i32, event: String },
    EventGroup { events: Vec<(i32, String)> },
    AboutToShow { id: i32 },
    AboutToShowGroup { ids: Vec<i32> },
}

/// The reply to a DBusMenu call.
#[derive(Debug, PartialEq)]
pub enum MenuReply {
    /// The layout revision and the layout.
    Layout { revision: u32, layout: MenuLayout },
    GroupProperties(Vec<(i32, Vec<(&'static str, PropValue)>)>),
    Property(PropValue),
    Empty,
    /// The ids of events on unknown items.
    EventErrors(Vec<i32>),
    /// Whether the menu must be fetched again.
    AboutToShow(bool),
    AboutToShowGroup { updates: Vec<i32>, errors: Vec<i32> },
}

/// The items, with their listed properties, that exist among `ids`.
pub open spec fn group_properties(ids: Seq<i32>, names: Seq<Seq<char>>, auto_show: bool) -> Seq<
    (i32, Seq<(&'static str, PropValue)>),
>
    decreases ids.len(),
{
    if ids.len() == 0 {
        Seq::empty()
    } else {
        (match menu_item_properties(ids[0], names, auto_show) {
            Some(p) => seq![(ids[0], p)],
            None => Seq::empty(),
        }) + group_properties(ids.drop_first(), names, auto_show)
    }
}

/// The ids of unknown items, in order.
pub open spec fn invalid_ids(ids: Seq<i32>) -> Seq<i32>
    decreases ids.len(),
{
    if ids.len() == 0 {
        Seq::empty()
    } else {
        (if is_valid_menu_id(ids[0]) {
            Seq::empty()
        } else {
            seq![ids[0]]
        }) + invalid_ids(ids.drop_first())
    }
}

/// The actions of a group of events, in order.
pub open spec fn event_actions(events: Seq<(i32, Seq<char>)>) -> Seq<TrayAction>
    decreases events.len(),
{
    if events.len() == 0 {
        Seq::empty()
    } else {
        (match menu_event_result(events[0].0, events[0].1) {
            Ok(Some(a)) => seq![a],
            _ => Seq::empty(),
        }) + event_actions(events.drop_first())
    }
}

/// The value of the first property with the given name.
pub open spec fn property_named(props: Seq<(&'static str, PropValue)>, name: Seq<char>) -> Option<
    PropValue,
>
    decreases props.len(),
{
    if props.len() == 0 {
        None
    } else if props[0].0@ == name {
        Some(props[0].1)
    } else {
        property_named(props.drop_first(), name)
    }
}

/// The ids that a group-properties call asks about: all items when none are given.
pub open spec fn requested_ids(ids: Seq<i32>) -> Seq<i32> {
    if ids.len() == 0 {
        seq![0i32] + menu_item_ids()
    } else {
        ids
    }
}

/// The reply and actions of a DBusMenu call, or its error.
pub open spec fn is_menu_response(
    request: MenuRequest,
    auto_show: bool,
    r: Result<(MenuReply, Vec<TrayAction>), &'static str>,
) -> bool {
    match request {
        MenuRequest::GetLayout { id, depth, names } => match r {
            Ok((MenuReply::Layout { revision, layout }, actions)) => item_properties(id, auto_show)
                is Some && revision == 1 && is_menu_layout(
                layout,
                id,
                depth,
                names@.map_values(|s: String| s@),
                auto_show,
            ) && actions@.len() == 0,
            Ok(_) => false,
            Err(e) => item_properties(id, auto_show) is None && e == "Unknown menu item",
        },
        MenuRequest::GetGroupProperties { ids, names } => match r {
            Ok((MenuReply::GroupProperties(props), actions)) => props@.map_values(
                |p: (i32, Vec<(&'static str, PropValue)>)| (p.0, p.1@),
            ) == group_properties(
                requested_ids(ids@),
                names@.map_values(|s: String| s@),
                auto_show,
            ) && actions@.len() == 0,
            _ => false,
        },
        MenuRequest::GetProperty { id, name } => match item_properties(id, auto_show) {
            Some(p) => match property_named(p, name@) {
                Some(v) => r matches Ok((MenuReply::Property(x), actions)) && x == v
                    && actions@.len() == 0,
                None => r == Err::<(MenuReply, Vec<TrayAction>), &'static str>(
                    "Unknown menu item or property",
                ),
            },
            None => r == Err::<(MenuReply, Vec<TrayAction>), &'static str>(
                "Unknown menu item or property",
            ),
        },
        MenuRequest::Event { id, event } => match menu_event_result(id, event@) {
            Ok(a) => r matches Ok((MenuReply::Empty, actions)) && actions@ == (match a {
                Some(x) => seq![x],
                None => Seq::empty(),
            }),
            Err(e) => r == Err::<(MenuReply, Vec<TrayAction>), &'static str>(e),
        },
        MenuRequest::EventGroup { events } => {
            let ev = events@.map_values(|e: (i32, String)| (e.0, e.1@));
            r matches Ok((MenuReply::EventErrors(errors), actions)) && errors@ == invalid_ids(
                ev.map_values(|e: (i32, Seq<char>)| e.0),
            ) && actions@ == event_actions(ev)
        },
        MenuRequest::AboutToShow { id } => if item_properties(id, auto_show) is Some {
            r matches Ok((MenuReply::AboutToShow(update), actions)) && !update && actions@.len()
                == 0
        } else {
            r == Err::<(MenuReply, Vec<TrayAction>), &'static str>("Unknown menu item")
        },
        MenuRequest::AboutToShowGroup { ids } => r matches Ok(
            (MenuReply::AboutToShowGroup { updates, errors }, actions),
        ) && updates@.len() == 0 && errors@ == invalid_ids(ids@) && actions@.len() == 0,
    }
}

fn group_properties_of(ids: &Vec<i32>, names: &[String], auto_show: bool) -> (r: Vec<
    (i32, Vec<(&'static str, PropValue)>),
>)
    ensures
        r@.map_values(|p: (i32, Vec<(&'static str, PropValue)>)| (p.0, p.1@)) == group_properties(
            ids@,
            names@.map_values(|s: String| s@),
            auto_show,
        ),
{
    let ghost wanted = names@.map_values(|s: String| s@);
    let mut r: Vec<(i32, Vec<(&'static str, PropValue)>)> = Vec::new();
    let mut i: usize = 0;
    assert(ids@.skip(0) =~= ids@);
    while i < ids.len()
        invariant
            i <= ids@.len(),
            wanted == names@.map_values(|s: String| s@),
            group_properties(ids@, wanted, auto_show) == r@.map_values(
                |p: (i32, Vec<(&'static str, PropValue)>)| (p.0, p.1@),
            ) + group_properties(ids@.skip(i as int), wanted, auto_show),
        decreases ids@.len() - i,
    {
        let ghost rest = ids@.skip(i as int);
        let ghost before = r@.map_values(|p: (i32, Vec<(&'static str, PropValue)>)| (p.0, p.1@));
        assert(rest[0] == ids@[i as int]);
        assert(rest.drop_first() =~= ids@.skip(i + 1));
        match menu_properties(ids[i], names, auto_show) {
            Some(p) => {
                let ghost pv = p@;
                r.push((ids[i], p));
                assert(r@.map_values(|p: (i32, Vec<(&'static str, PropValue)>)| (p.0, p.1@))
                    =~= before.push((ids@[i as int], pv)));
                assert(before.push((ids@[i as int], pv)) + group_properties(
                    rest.drop_first(),
                    wanted,
                    auto_show,
                ) =~= before + (seq![(ids@[i as int], pv)] + group_properties(
                    rest.drop_first(),
                    wanted,
                    auto_show,
                )));
            },
            None => {
                assert(before + group_properties(rest.drop_first(), wanted, auto_show) =~= before
                    + (Seq::empty() + group_properties(rest.drop_first(), wanted, auto_show)));
            },
        }
        i = i + 1;
    }
    assert(r@.map_values(|p: (i32, Vec<(&'static str, PropValue)>)| (p.0, p.1@)) + Seq::empty()
        =~= r@.map_values(|p: (i32, Vec<(&'static str, PropValue)>)| (p.0, p.1@)));
    r
}

fn invalid_ids_of(ids: &Vec<i32>) -> (r: Vec<i32>)
    ensures
        r@ == invalid_ids(ids@),
{
    let mut r: Vec<i32> = Vec::new();
    let mut i: usize = 0;
    assert(ids@.skip(0) =~= ids@);
    while i < ids.len()
        invariant
            i <= ids@.len(),
            invalid_ids(ids@) == r@ + invalid_ids(ids@.skip(i as int)),
        decreases ids@.len() - i,
    {
        let ghost rest = ids@.skip(i as int);
        let ghost before = r@;
        assert(rest[0] == ids@[i as int]);
        assert(rest.drop_first() =~= ids@.skip(i + 1));
        if !valid_menu_id(ids[i]) {
            r.push(ids[i]);
            assert(before.push(ids@[i as int]) + invalid_ids(rest.drop_first()) =~= before + (seq![
                ids@[i as int],
            ] + invalid_ids(rest.drop_first())));
        } else {
            assert(before + invalid_ids(rest.drop_first()) =~= before + (Seq::empty() + invalid_ids(
                rest.drop_first(),
            )));
        }
        i = i + 1;
    }
    assert(r@ + Seq::<i32>::empty() =~= r@);
    r
}

fn property_named_of(props: &Vec<(&'static str, PropValue)>, name: &str) -> (r: Option<PropValue>)
    ensures
        r == property_named(props@, name@),
{
    let mut i: usize = 0;
    assert(props@.skip(0) =~= props@);
    while i < props.len()
        invariant
            i <= props@.len(),
            property_named(props@, name@) == property_named(props@.skip(i as int), name@),
        decreases props@.len() - i,
    {
        let ghost rest = props@.skip(i as int);
        assert(rest[0] == props@[i as int]);
        assert(rest.drop_first() =~= props@.skip(i + 1));
        if same_str(props[i].0, name) {
            return Some(props[i].1);
        }
        i = i + 1;
    }
    None
}

/// Answers a DBusMenu call. Only `Event` and `EventGroup` produce actions.
pub fn menu_request(request: &MenuRequest, auto_show: bool) -> (r: Result<
    (MenuReply, Vec<TrayAction>),
    &'static str,
>)
    ensures
        is_menu_response(*request, auto_show, r),
{
    match request {
        MenuRequest::GetLayout { id, depth, names } => {
            match menu_layout(*id, *depth, names, auto_show) {
                Some(layout) => Ok((MenuReply::Layout { revision: 1, layout }, Vec::new())),
                None => Err("Unknown menu item"),
            }
        },
        MenuRequest::GetGroupProperties { ids, names } => {
            let all = if ids.len() == 0 {
                let mut all = vec![0];
                let items = menu_items();
                let mut k: usize = 0;
                while k < 5
                    invariant
                        k <= 5,
                        items@ == menu_item_ids(),
                        all@ == seq![0i32] + menu_item_ids().take(k as int),
                    decreases 5 - k,
                {
                    all.push(items[k]);
                    assert(seq![0i32] + menu_item_ids().take(k + 1) =~= (seq![0i32]
                        + menu_item_ids().take(k as int)).push(menu_item_ids()[k as int]));
                    k = k + 1;
                }
                assert(menu_item_ids().take(5) =~= menu_item_ids());
                all
            } else {
                let mut all: Vec<i32> = Vec::new();
                let mut k: usize = 0;
                while k < ids.len()
                    invariant
                        k <= ids@.len(),
                        all@ == ids@.take(k as int),
                    decreases ids@.len() - k,
                {
                    all.push(ids[k]);
                    assert(ids@.take(k + 1) =~= ids@.take(k as int).push(ids@[k as int]));
                    k = k + 1;
                }
                assert(ids@.take(ids@.len() as int) =~= ids@);
                all
            };
            let props = group_properties_of(&all, names, auto_show);
            Ok((MenuReply::GroupProperties(props), Vec::new()))
        },
        MenuRequest::GetProperty { id, name } => {
            match all_item_properties(*id, auto_show) {
                Some(props) => match property_named_of(&props, name.as_str()) {
                    Some(v) => Ok((MenuReply::Property(v), Vec::new())),
                    None => Err("Unknown menu item or property"),
                },
                None => Err("Unknown menu item or property"),
            }
        },
        MenuRequest::Event { id, event } => {
            match menu_event(*id, event.as_str()) {
                Ok(action) => {
                    let mut actions = Vec::new();
                    match action {
                        Some(a) => {
                            actions.push(a);
                            assert(actions@ =~= seq![a]);
                        },
                        None => {},
                    }
                    Ok((MenuReply::Empty, actions))
                },
                Err(e) => Err(e),
            }
        },
        MenuRequest::EventGroup { events } => {
            let ghost ev = events@.map_values(|e: (i32, String)| (e.0, e.1@));
            let ghost evids = ev.map_values(|e: (i32, Seq<char>)| e.0);
            let mut errors: Vec<i32> = Vec::new();
            let mut actions: Vec<TrayAction> = Vec::new();
            let mut i: usize = 0;
            assert(ev.skip(0) =~= ev);
            assert(evids.skip(0) =~= evids);
            while i < events.len()
                invariant
                    i <= events@.len(),
                    ev == events@.map_values(|e: (i32, String)| (e.0, e.1@)),
                    evids == ev.map_values(|e: (i32, Seq<char>)| e.0),
                    event_actions(ev) == actions@ + event_actions(ev.skip(i as int)),
                    invalid_ids(evids) == errors@ + invalid_ids(evids.skip(i as int)),
                decreases events@.len() - i,
            {
                let ghost rest = ev.skip(i as int);
                let ghost rest_ids = evids.skip(i as int);
                let ghost before_actions = actions@;
                let ghost before_errors = errors@;
                assert(rest[0] == ev[i as int]);
                assert(rest.drop_first() =~= ev.skip(i + 1));
                assert(rest_ids[0] == ev[i as int].0);
                assert(rest_ids.drop_first() =~= evids.skip(i + 1));
                let id = events[i].0;
                match menu_event(id, events[i].1.as_str()) {
                    Ok(action) => {
                        match action {
                            Some(a) => {
                                actions.push(a);
                                assert(before_actions.push(a) + event_actions(rest.drop_first())
                                    =~= before_actions + (seq![a] + event_actions(
                                    rest.drop_first(),
                                )));
                            },
                            None => {
                                assert(before_actions + event_actions(rest.drop_first())
                                    =~= before_actions + (Seq::empty() + event_actions(
                                    rest.drop_first(),
                                )));
                            },
                        }
                        assert(before_errors + invalid_ids(rest_ids.drop_first()) =~= before_errors
                            + (Seq::empty() + invalid_ids(rest_ids.drop_first())));
                    },
                    Err(_) => {
                        errors.push(id);
                        assert(before_errors.push(id) + invalid_ids(rest_ids.drop_first())
                            =~= before_errors + (seq![id] + invalid_ids(rest_ids.drop_first())));
                        assert(before_actions + event_actions(rest.drop_first()) =~= before_actions
                            + (Seq::empty() + event_actions(rest.drop_first())));
                    },
                }
                i = i + 1;
            }
            assert(actions@ + Seq::<TrayAction>::empty() =~= actions@);
            assert(errors@ + Seq::<i32>::empty() =~= errors@);
            Ok((MenuReply::EventErrors(errors), actions))
        },
        MenuRequest::AboutToShow { id } => {
            match all_item_properties(*id, auto_show) {
                Some(_) => Ok((MenuReply::AboutToShow(false), Vec::new())),
                None => Err("Unknown menu item"),
            }
        },
        MenuRequest::AboutToShowGroup { ids } => {
            let errors = invalid_ids_of(ids);
            Ok((MenuReply::AboutToShowGroup { updates: Vec::new(), errors }, Vec::new()))
        },
    }
}

/// The checkmark of the auto-show item always shows the current state,
/// whatever the property filter, as long as it lets `toggle-state` through.
pub proof fn lemma_checkmark_follows_auto_show(auto_show: bool, names: Seq<Seq<char>>)
    requires
        names.len() == 0 || names.contains("toggle-state"@),
    ensures
        menu_item_properties(AUTO_SHOW_ID, names, auto_show) matches Some(p) && property_named(
            p,
            "toggle-state"@,
        ) == Some(
            PropValue::Int(
                if auto_show {
                    1i32
                } else {
                    0i32
                },
            ),
        ),
{
    reveal_strlit("label");
    reveal_strlit("enabled");
    reveal_strlit("visible");
    reveal_strlit("toggle-type");
    reveal_strlit("toggle-state");
    reveal_with_fuel(keep_named, 6);
    reveal_with_fuel(property_named, 6);
    let p = item_properties(AUTO_SHOW_ID, auto_show)->Some_0;
    assert("label"@.len() == 5);
    assert("toggle-state"@.len() == 12);
    assert("enabled"@.len() == 7);
    assert("label"@ != "toggle-state"@);
    assert("enabled"@ != "toggle-state"@);
    assert("visible"@ != "toggle-state"@);
    assert("toggle-type"@ != "toggle-state"@);
    assert(p[4].0@ == "toggle-state"@);
}

/// A property of the StatusNotifierItem.
#[derive(Clone, Copy, Debug, PartialEq, Eq)]
pub enum ItemProperty {
    Text(&'static str),
    Int(i32),
    Flag(bool),
    /// The embedded keyboard icon at every tray size.
    Icons,
    /// No icons.
    NoIcons,
    ObjectPath(&'static str),
    /// Icon name, icons, title and description.
    ToolTip { icon_name: &'static str, title: &'static str, description: &'static str },
}

/// The StatusNotifierItem's properties. The icon name is empty so that hosts
/// use the embedded pixels rather than a theme lookup.
pub open spec fn item_property_value(name: Seq<char>) -> Option<ItemProperty> {
    if name == "Category"@ {
        Some(ItemProperty::Text("ApplicationStatus"))
    } else if name == "Id"@ {
        Some(ItemProperty::Text("waylandkb"))
    } else if name == "Title"@ {
        Some(ItemProperty::Text("Экранная клавиатура"))
    } else if name == "Status"@ {
        Some(ItemProperty::Text("Active"))
    } else if name == "WindowId"@ {
        Some(ItemProperty::Int(0))
    } else if name == "IconName"@ {
        Some(ItemProperty::Text(""))
    } else if name == "IconPixmap"@ {
        Some(ItemProperty::Icons)
    } else if name == "OverlayIconPixmap"@ || name == "AttentionIconPixmap"@ {
        Some(ItemProperty::NoIcons)
    } else if name == "IconThemePath"@ || name == "OverlayIconName"@ || name
        == "AttentionIconName"@ || name == "AttentionMovieName"@ {
        Some(ItemProperty::Text(""))
    } else if name == "ItemIsMenu"@ {
        Some(ItemProperty::Flag(false))
    } else if name == "Menu"@ {
        Some(ItemProperty::ObjectPath("/StatusNotifierItem/Menu"))
    } else if name == "ToolTip"@ {
        Some(
            ItemProperty::ToolTip {
                icon_name: "",
                title: "Экранная клавиатура",
                description: "Нажмите, чтобы показать или скрыть клавиатуру",
            },
        )
    } else {
        None
    }
}

pub fn item_property(name: &str) -> (r: Option<ItemProperty>)
    ensures
        r == item_property_value(name@),
{
    let n = chars_of(name);
    if chars_are(&n, "Category") {
        Some(ItemProperty::Text("ApplicationStatus"))
    } else if chars_are(&n, "Id") {
        Some(ItemProperty::Text("waylandkb"))
    } else if chars_are(&n, "Title") {
        Some(ItemProperty::Text("Экранная клавиатура"))
    } else if chars_are(&n, "Status") {
        Some(ItemProperty::Text("Active"))
    } else if chars_are(&n, "WindowId") {
        Some(ItemProperty::Int(0))
    } else if chars_are(&n, "IconName") {
        Some(ItemProperty::Text(""))
    } else if chars_are(&n, "IconPixmap") {
        Some(ItemProperty::Icons)
    } else if chars_are(&n, "OverlayIconPixmap") || chars_are(&n, "AttentionIconPixmap") {
        Some(ItemProperty::NoIcons)
    } else if chars_are(&n, "IconThemePath") || chars_are(&n, "OverlayIconName") || chars_are(
        &n,
        "AttentionIconName",
    ) || chars_are(&n, "AttentionMovieName") {
        Some(ItemProperty::Text(""))
    } else if chars_are(&n, "ItemIsMenu") {
        Some(ItemProperty::Flag(false))
    } else if chars_are(&n, "Menu") {
        Some(ItemProperty::ObjectPath("/StatusNotifierItem/Menu"))
    } else if chars_are(&n, "ToolTip") {
        Some(
            ItemProperty::ToolTip {
                icon_name: "",
                title: "Экранная клавиатура",
                description: "Нажмите, чтобы показать или скрыть клавиатуру",
            },
        )
    } else {
        None
    }
}

/// A property of the DBusMenu object.
#[derive(Clone, Copy, Debug, PartialEq, Eq)]
pub enum MenuProperty {
    Version(u32),
    Text(&'static str),
    /// An empty list of icon theme paths.
    NoPaths,
}

pub open spec fn menu_property_value(name: Seq<char>) -> Option<MenuProperty> {
    if name == "Version"@ {
        Some(MenuProperty::Version(4))
    } else if name == "TextDirection"@ {
        Some(MenuProperty::Text("ltr"))
    } else if name == "Status"@ {
        Some(MenuProperty::Text("normal"))
    } else if name == "IconThemePath"@ {
        Some(MenuProperty::NoPaths)
    } else {
        None
    }
}

pub fn menu_property(name: &str) -> (r: Option<MenuProperty>)
    ensures
        r == menu_property_value(name@),
{
    let n = chars_of(name);
    if chars_are(&n, "Version") {
        Some(MenuProperty::Version(4))
    } else if chars_are(&n, "TextDirection") {
        Some(MenuProperty::Text("ltr"))
    } else if chars_are(&n, "Status") {
        Some(MenuProperty::Text("normal"))
    } else if chars_are(&n, "IconThemePath") {
        Some(MenuProperty::NoPaths)
    } else {
        None
    }
}

/// The icon sizes offered to the tray.
pub fn icon_sizes() -> (r: Vec<i32>)
    ensures
        r@ == seq![16i32, 22, 24, 32, 48, 64],
{
    let r = vec![16, 22, 24, 32, 48, 64];
    assert(r@ =~= seq![16i32, 22, 24, 32, 48, 64]);
    r
}

/// One RGBA pixel at `start` as network-order ARGB.
pub open spec fn argb_pixel(rgba: Seq<u8>, start: int) -> Seq<u8> {
    seq![rgba[start + 3], rgba[start], rgba[start + 1], rgba[start + 2]]
}

/// The first `n` pixels of the row that starts at `start`.
pub open spec fn argb_row(rgba: Seq<u8>, start: int, n: int) -> Seq<u8>
    decreases n,
{
    if n <= 0 {
        Seq::empty()
    } else {
        argb_row(rgba, start, n - 1) + argb_pixel(rgba, start + 4 * (n - 1))
    }
}

/// The first `rows` rows of `width` pixels, rows `stride` bytes apart.
pub open spec fn argb_rows(rgba: Seq<u8>, width: int, stride: int, rows: int) -> Seq<u8>
    decreases rows,
{
    if rows <= 0 {
        Seq::empty()
    } else {
        argb_rows(rgba, width, stride, rows - 1) + argb_row(rgba, (rows - 1) * stride, width)
    }
}

/// The number of rows of `stride` bytes (the last may be shorter) in `len` bytes.
pub open spec fn row_count(len: int, stride: int) -> int {
    (len + stride - 1) / stride
}

/// Every row holds `width` whole pixels.
pub open spec fn rows_fit(len: int, width: int, stride: int) -> bool {
    len == 0 || (4 * width <= stride && 4 * width <= len - (row_count(len, stride) - 1) * stride)
}

/// The pixel format is 8-bit RGBA.
pub open spec fn is_rgba8(has_alpha: bool, n_channels: i32, bits_per_sample: i32) -> bool {
    has_alpha && n_channels == 4 && bits_per_sample == 8
}

proof fn lemma_row_start(len: int, width: int, stride: int, r: int)
    requires
        len > 0,
        stride > 0,
        width >= 0,
        rows_fit(len, width, stride),
        0 <= r < row_count(len, stride),
    ensures
        0 <= r * stride,
        r * stride + 4 * width <= len,
{
    let rows = row_count(len, stride);
    assert(0 <= r * stride) by (nonlinear_arith)
        requires
            r >= 0,
            stride > 0,
    ;
    assert((rows - 1) * stride < len) by (nonlinear_arith)
        requires
            rows == (len + stride - 1) / stride,
            stride > 0,
            len > 0,
    ;
    if r < rows - 1 {
        assert(r * stride + stride <= (rows - 1) * stride) by (nonlinear_arith)
            requires
                r < rows - 1,
                stride > 0,
        ;
    }
}

/// The tray pixmap of an image: tightly packed network-order ARGB rows,
/// skipping each row's padding. Only 8-bit RGBA images are accepted.
pub fn icon_pixmap(
    width: i32,
    height: i32,
    rowstride: i32,
    has_alpha: bool,
    n_channels: i32,
    bits_per_sample: i32,
    rgba: &[u8],
) -> (r: Result<(i32, i32, Vec<u8>), &'static str>)
    requires
        is_rgba8(has_alpha, n_channels, bits_per_sample) ==> {
            &&& 0 <= width
            &&& 0 <= height
            &&& width * height * 4 <= i32::MAX
            &&& 0 < rowstride
            &&& rows_fit(rgba@.len() as int, width as int, rowstride as int)
        },
    ensures
        !is_rgba8(has_alpha, n_channels, bits_per_sample) ==> r == Err::<
            (i32, i32, Vec<u8>),
            &'static str,
        >("tray artwork must be RGBA8"),
        is_rgba8(has_alpha, n_channels, bits_per_sample) ==> (r matches Ok((w, h, pixels)) && w
            == width && h == height && pixels@ == argb_rows(
            rgba@,
            width as int,
            rowstride as int,
            row_count(rgba@.len() as int, rowstride as int),
        )),
{
    if !(has_alpha && n_channels == 4 && bits_per_sample == 8) {
        return Err("tray artwork must be RGBA8");
    }
    let stride = rowstride as usize;
    let w = width as usize;
    let len = rgba.len();
    let q = len / stride;
    let extra: usize = if len % stride != 0 {
        1
    } else {
        0
    };
    assert(q + extra <= len) by (nonlinear_arith)
        requires
            q == len / stride,
            extra == (if len % stride != 0 {
                1int
            } else {
                0int
            }),
            stride > 0,
    ;
    let rows = q + extra;
    assert(rows > 0 ==> len > 0);
    assert(rows as int == row_count(len as int, stride as int)) by (nonlinear_arith)
        requires
            rows == len / stride + if len % stride != 0 {
                1int
            } else {
                0int
            },
            stride > 0,
    ;
    assert(rows as int == q + extra);
    let mut pixels: Vec<u8> = Vec::new();
    let mut r: usize = 0;
    while r < rows
        invariant
            stride == rowstride as int,
            w == width as int,
            len == rgba@.len(),
            stride > 0,
            rows as int == row_count(len as int, stride as int),
            rows > 0 ==> len > 0,
            rows_fit(len as int, w as int, stride as int),
            r <= rows,
            pixels@ == argb_rows(rgba@, w as int, stride as int, r as int),
        decreases rows - r,
    {
        proof {
            lemma_row_start(len as int, w as int, stride as int, r as int);
        }
        let start = r * stride;
        let mut p: usize = 0;
        while p < w
            invariant
                start + 4 * w <= len,
                len == rgba@.len(),
                start == r * stride,
                p <= w,
                pixels@ == argb_rows(rgba@, w as int, stride as int, r as int) + argb_row(
                    rgba@,
                    start as int,
                    p as int,
                ),
            decreases w - p,
        {
            let at = start + 4 * p;
            let ghost before = pixels@;
            pixels.push(rgba[at + 3]);
            pixels.push(rgba[at]);
            pixels.push(rgba[at + 1]);
            pixels.push(rgba[at + 2]);
            assert(pixels@ =~= before + argb_pixel(rgba@, at as int));
            assert(argb_rows(rgba@, w as int, stride as int, r as int) + argb_row(
                rgba@,
                start as int,
                p + 1,
            ) =~= before + argb_pixel(rgba@, at as int));
            p = p + 1;
        }
        r = r + 1;
    }
    Ok((width, height, pixels))
}

} // verus!
