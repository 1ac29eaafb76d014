//! Desktop notifications forwarded by the server: what is taken from a
//! notification message seen on the session bus.

use vstd::prelude::*;

verus! {

/// An argument of a bus message.
#[derive(Debug)]
pub enum MessageItem {
    Str(String),
    Int32(i32),
    Byte(u8),
    Array(Vec<MessageItem>),
    Dict(Vec<(MessageItem, MessageItem)>),
    Variant(Box<MessageItem>),
    Struct(Vec<MessageItem>),
    /// Any other kind of argument.
    Other,
}

/// A piece of a notification shown by the client.
#[derive(Debug)]
pub enum Notification {
    /// The title.
    Title(String),
    /// A line of the message.
    Message(String),
    /// An RGBA icon: width, height and pixels.
    Icon(u32, u32, Vec<u8>),
}

/// A piece of a notification, as the specifications see it.
pub enum NotificationView {
    Title(Seq<char>),
    Message(Seq<char>),
    Icon(u32, u32, Seq<u8>),
}

/// The value of a notification piece.
pub open spec fn note_view(n: Notification) -> NotificationView {
    match n {
        Notification::Title(s) => NotificationView::Title(s@),
        Notification::Message(s) => NotificationView::Message(s@),
        Notification::Icon(w, h, d) => NotificationView::Icon(w, h, d@),
    }
}

/// The values of notification pieces.
pub open spec fn notes_view(v: Seq<Notification>) -> Seq<NotificationView> {
    v.map_values(|n: Notification| note_view(n))
}

/// The byte an icon item stands for: its value, or zero for an item that
/// is not a byte.
pub open spec fn item_byte(item: MessageItem) -> u8 {
    match item {
        MessageItem::Byte(b) => b,
        _ => 0,
    }
}

/// The icon described by the seven fields of an `icon_data` structure:
/// width, height, two unused fields, bits per sample, samples per pixel,
/// and the pixels. Only 8 bit RGBA icons are kept, whose pixels fill the
/// size, the sides taken as `usize` (a negative side wraps around).
pub open spec fn struct_icon(s: Seq<MessageItem>) -> Option<NotificationView> {
    if s.len() == 7 {
        match (s[0], s[1], s[4], s[5], s[6]) {
            (
                MessageItem::Int32(w),
                MessageItem::Int32(h),
                MessageItem::Int32(bits),
                MessageItem::Int32(bytes),
                MessageItem::Array(data),
            ) => if bits == 8 && bytes == 4 && data@.len() == (w as usize) * (h as usize) * 4 {
                Some(NotificationView::Icon(w as u32, h as u32, data@.map_values(|b: MessageItem| item_byte(b))))
            } else {
                None
            },
            _ => None,
        }
    } else {
        None
    }
}

/// The size of an 8 bit RGBA icon structure, its sides taken as `usize`,
/// fits in a `usize`.
pub open spec fn struct_icon_fits(s: Seq<MessageItem>) -> bool {
    s.len() == 7 ==> match (s[0], s[1], s[4], s[5], s[6]) {
        (
            MessageItem::Int32(w),
            MessageItem::Int32(h),
            MessageItem::Int32(bits),
            MessageItem::Int32(bytes),
            MessageItem::Array(_),
        ) => bits == 8 && bytes == 4 ==> (w as usize) * (h as usize) * 4 <= usize::MAX,
        _ => true,
    }
}

/// The icon structure of a dictionary entry, if any, fits.
pub open spec fn entry_fits(entry: (MessageItem, MessageItem)) -> bool {
    match entry {
        (MessageItem::Str(name), MessageItem::Variant(v)) => name@ == "icon_data"@ ==> match *v {
            MessageItem::Struct(s) => struct_icon_fits(s@),
            _ => true,
        },
        _ => true,
    }
}

/// The icon structures of an argument fit.
pub open spec fn item_fits(item: MessageItem) -> bool {
    match item {
        MessageItem::Dict(d) => forall|i: int| 0 <= i < d@.len() ==> entry_fits(#[trigger] d@[i]),
        _ => true,
    }
}

/// The icon structures that a notification message is read for fit.
pub open spec fn message_fits(items: Seq<MessageItem>) -> bool {
    items.len() >= 4 ==> match (items[0], items[3]) {
        (MessageItem::Str(app), MessageItem::Str(_)) => app@ == "Firefox"@ ==> forall|i: int|
            4 <= i < items.len() ==> item_fits(#[trigger] items[i]),
        _ => true,
    }
}

/// The icon of a dictionary entry: the entry `icon_data` whose value is a
/// variant holding an icon structure.
pub open spec fn entry_icon(entry: (MessageItem, MessageItem)) -> Seq<NotificationView> {
    match entry {
        (MessageItem::Str(name), MessageItem::Variant(v)) => if name@ == "icon_data"@ {
            match *v {
                MessageItem::Struct(s) => match struct_icon(s@) {
                    Some(icon) => seq![icon],
                    None => Seq::empty(),
                },
                _ => Seq::empty(),
            }
        } else {
            Seq::empty()
        },
        _ => Seq::empty(),
    }
}

/// The icons of the entries of a dictionary, in order.
pub open spec fn dict_icons(entries: Seq<(MessageItem, MessageItem)>) -> Seq<NotificationView>
    decreases entries.len(),
{
    if entries.len() == 0 {
        Seq::empty()
    } else {
        dict_icons(entries.drop_last()) + entry_icon(entries.last())
    }
}

/// What an argument after the title gives: a string is a line of the
/// message, a dictionary gives its icons.
pub open spec fn item_notes(item: MessageItem) -> Seq<NotificationView> {
    match item {
        MessageItem::Str(s) => seq![NotificationView::Message(s@)],
        MessageItem::Dict(d) => dict_icons(d@),
        _ => Seq::empty(),
    }
}

/// What the arguments `items` give, in order.
pub open spec fn items_notes(items: Seq<MessageItem>) -> Seq<NotificationView>
    decreases items.len(),
{
    if items.len() == 0 {
        Seq::empty()
    } else {
        items_notes(items.drop_last()) + item_notes(items.last())
    }
}

/// The notification carried by a notification message: only those of
/// Firefox are kept (its first argument is the application, its fourth the
/// title); the arguments after the title give the message and the icon.
pub open spec fn message_notes(items: Seq<MessageItem>) -> Seq<NotificationView> {
    if items.len() >= 4 {
        match (items[0], items[3]) {
            (MessageItem::Str(app), MessageItem::Str(title)) => if app@ == "Firefox"@ {
                seq![NotificationView::Title(title@)] + items_notes(items.subrange(4, items.len() as int))
            } else {
                Seq::empty()
            },
            _ => Seq::empty(),
        }
    } else {
        Seq::empty()
    }
}

/// Whether `a` and `b` hold the same characters.
fn same_text(a: &String, b: &str) -> (r: bool)
    ensures
        r == (a@ == b@),
{
    *a == b.to_owned()
}

/// The icon of an `icon_data` structure, if it describes one.
fn icon_from_struct(s: &Vec<MessageItem>) -> (r: Option<Notification>)
    requires
        struct_icon_fits(s@),
    ensures
        match struct_icon(s@) {
            Some(v) => r matches Some(n) && note_view(n) == v,
            None => r is None,
        },
{
    if s.len() != 7 {
        return None;
    }
    match (&s[0], &s[1], &s[4], &s[5], &s[6]) {
        (
            MessageItem::Int32(w),
            MessageItem::Int32(h),
            MessageItem::Int32(bits),
            MessageItem::Int32(bytes),
            MessageItem::Array(data),
        ) => {
            if *bits != 8 || *bytes != 4 {
                return None;
            }
            let wu = *w as usize;
            let hu = *h as usize;
            assert(wu * hu <= wu * hu * 4) by (nonlinear_arith);
            if data.len() != wu * hu * 4 {
                return None;
            }
            let mut pixels: Vec<u8> = Vec::new();
            let mut i: usize = 0;
            while i < data.len()
                invariant
                    i <= data@.len(),
                    pixels@ == data@.subrange(0, i as int).map_values(|b: MessageItem| item_byte(b)),
                decreases data@.len() - i,
            {
                let b = match &data[i] {
                    MessageItem::Byte(b) => *b,
                    _ => 0,
                };
                pixels.push(b);
                i = i + 1;
                assert(pixels@ =~= data@.subrange(0, i as int).map_values(|b: MessageItem| item_byte(b)));
            }
            assert(data@.subrange(0, data@.len() as int) =~= data@);
            Some(Notification::Icon(*w as u32, *h as u32, pixels))
        },
        _ => None,
    }
}

/// Appends the icons of a dictionary.
fn push_dict_icons(entries: &Vec<(MessageItem, MessageItem)>, out: &mut Vec<Notification>)
    requires
        forall|i: int| 0 <= i < entries@.len() ==> entry_fits(#[trigger] entries@[i]),
    ensures
        notes_view(final(out)@) == notes_view(old(out)@) + dict_icons(entries@),
{
    proof {
        reveal_strlit("icon_data");
    }
    let ghost start = notes_view(out@);
    let mut i: usize = 0;
    assert(dict_icons(entries@.subrange(0, 0)) =~= Seq::<NotificationView>::empty());
    assert(start + Seq::<NotificationView>::empty() =~= start);
    while i < entries.len()
        invariant
            i <= entries@.len(),
            forall|k: int| 0 <= k < entries@.len() ==> entry_fits(#[trigger] entries@[k]),
            notes_view(out@) == start + dict_icons(entries@.subrange(0, i as int)),
        decreases entries@.len() - i,
    {
        let ghost before = notes_view(out@);
        proof {
            assert(entries@.subrange(0, i as int + 1).drop_last() =~= entries@.subrange(0, i as int));
        }
        match &entries[i] {
            (MessageItem::Str(name), MessageItem::Variant(v)) => {
                if same_text(name, "icon_data") {
                    match &**v {
                        MessageItem::Struct(s) => match icon_from_struct(s) {
                            Some(icon) => {
                                out.push(icon);
                                assert(notes_view(out@) =~= before + entry_icon(entries@[i as int]));
                            },
                            None => {
                                assert(before + entry_icon(entries@[i as int]) =~= before);
                            },
                        },
                        _ => {
                            assert(before + entry_icon(entries@[i as int]) =~= before);
                        },
                    }
                } else {
                    assert(before + entry_icon(entries@[i as int]) =~= before);
                }
            },
            _ => {
                assert(before + entry_icon(entries@[i as int]) =~= before);
            },
        }
        i = i + 1;
    }
    assert(entries@.subrange(0, entries@.len() as int) =~= entries@);
}

/// The notification carried by a notification message's arguments: only
/// Firefox's are kept; its title, then the lines of the message and the
/// icons, in order. Left out: a message with an icon whose size overflows a
/// `usize`.
pub fn notification_extract_message(items: &Vec<MessageItem>) -> (notes: Vec<Notification>)
    requires
        message_fits(items@),
    ensures
        notes_view(notes@) == message_notes(items@),
{
    proof {
        reveal_strlit("Firefox");
    }
    let mut notifications: Vec<Notification> = Vec::new();
    if items.len() < 4 {
        assert(notes_view(notifications@) =~= Seq::<NotificationView>::empty());
        return notifications;
    }
    match (&items[0], &items[3]) {
        (MessageItem::Str(app), MessageItem::Str(title)) => {
            if !same_text(app, "Firefox") {
                assert(notes_view(notifications@) =~= Seq::<NotificationView>::empty());
                return notifications;
            }
            notifications.push(Notification::Title(title.clone()));
            let ghost head = seq![NotificationView::Title(title@)];
            assert(notes_view(notifications@) =~= head);
            let mut i: usize = 4;
            assert(items_notes(items@.subrange(4, 4)) =~= Seq::<NotificationView>::empty());
            assert(head + Seq::<NotificationView>::empty() =~= head);
            while i < items.len()
                invariant
                    4 <= i <= items@.len(),
                    forall|k: int| 4 <= k < items@.len() ==> item_fits(#[trigger] items@[k]),
                    notes_view(notifications@) == head + items_notes(items@.subrange(4, i as int)),
                decreases items@.len() - i,
            {
                let ghost before = notes_view(notifications@);
                proof {
                    assert(items@.subrange(4, i as int + 1).drop_last() =~= items@.subrange(4, i as int));
                    assert(items@.subrange(4, i as int + 1).last() == items@[i as int]);
                }
                match &items[i] {
                    MessageItem::Str(s) => {
                        notifications.push(Notification::Message(s.clone()));
                        assert(notes_view(notifications@) =~= before + item_notes(items@[i as int]));
                    },
                    MessageItem::Dict(d) => {
                        push_dict_icons(d, &mut notifications);
                    },
                    _ => {
                        assert(before + item_notes(items@[i as int]) =~= before);
                    },
                }
                proof {
                    assert(head + items_notes(items@.subrange(4, i as int)) + item_notes(items@[i as int])
                        =~= head + (items_notes(items@.subrange(4, i as int)) + item_notes(items@[i as int])));
                }
                i = i + 1;
            }
            notifications
        },
        _ => {
            assert(notes_view(notifications@) =~= Seq::<NotificationView>::empty());
            notifications
        },
    }
}

} // verus!
