use sanzu::notifications::{notification_extract_message, MessageItem, Notification};

fn s(x: &str) -> MessageItem {
    MessageItem::Str(x.to_owned())
}

fn icon_struct(w: i32, h: i32, bits: i32, bytes: i32, data: Vec<u8>) -> MessageItem {
    MessageItem::Struct(vec![
        MessageItem::Int32(w),
        MessageItem::Int32(h),
        MessageItem::Int32(0),
        MessageItem::Int32(1),
        MessageItem::Int32(bits),
        MessageItem::Int32(bytes),
        MessageItem::Array(data.into_iter().map(MessageItem::Byte).collect()),
    ])
}

fn describe(notes: &[Notification]) -> Vec<String> {
    notes
        .iter()
        .map(|n| match n {
            Notification::Title(t) => format!("title:{t}"),
            Notification::Message(m) => format!("message:{m}"),
            Notification::Icon(w, h, d) => format!("icon:{w}x{h}:{}", d.len()),
        })
        .collect()
}

#[test]
fn firefox_notification() {
    let items = vec![
        s("Firefox"),
        MessageItem::Other,
        s("icon"),
        s("Download complete"),
        s("file.txt"),
        MessageItem::Dict(vec![
            (s("urgency"), MessageItem::Variant(Box::new(MessageItem::Byte(1)))),
            (s("icon_data"), MessageItem::Variant(Box::new(icon_struct(1, 2, 8, 4, vec![9; 8])))),
        ]),
        MessageItem::Int32(5000),
    ];
    let notes = notification_extract_message(&items);
    assert_eq!(describe(&notes), vec!["title:Download complete", "message:file.txt", "icon:1x2:8"]);
}

#[test]
fn other_applications_are_ignored() {
    let items = vec![s("Thunderbird"), MessageItem::Other, s(""), s("Mail"), s("hello")];
    assert!(notification_extract_message(&items).is_empty());
    assert!(notification_extract_message(&vec![s("Firefox"), s("a"), s("b")]).is_empty());
    let items = vec![s("Firefox"), s("a"), s("b"), MessageItem::Int32(3)];
    assert!(notification_extract_message(&items).is_empty());
}

#[test]
fn bad_icons_are_dropped() {
    let bad = vec![
        (s("icon_data"), MessageItem::Variant(Box::new(icon_struct(2, 2, 8, 3, vec![0; 16])))),
        (s("icon_data"), MessageItem::Variant(Box::new(icon_struct(2, 2, 8, 4, vec![0; 15])))),
        (s("image"), MessageItem::Variant(Box::new(icon_struct(1, 1, 8, 4, vec![0; 4])))),
    ];
    let items = vec![s("Firefox"), s(""), s(""), s("T"), MessageItem::Dict(bad)];
    assert_eq!(describe(&notification_extract_message(&items)), vec!["title:T"]);
}

#[test]
fn negative_side_of_empty_icon_wraps() {
    // A side of -1 is taken as the largest usize: with the other side 0
    // the icon has no pixel, and the width is passed on cut to 32 bits.
    let dict = vec![(s("icon_data"), MessageItem::Variant(Box::new(icon_struct(-1, 0, 8, 4, vec![]))))];
    let items = vec![s("Firefox"), s(""), s(""), s("T"), MessageItem::Dict(dict)];
    assert_eq!(describe(&notification_extract_message(&items)), vec!["title:T", "icon:4294967295x0:0"]);
}
