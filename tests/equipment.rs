use slatehub::{first_equal, parse_command, parse_item_with_quantity, process_command, EquipmentItem};

fn item(name: &str, quantity: u32) -> EquipmentItem {
    EquipmentItem { name: name.to_string(), quantity }
}

fn names(items: &[EquipmentItem]) -> Vec<(String, u32)> {
    items.iter().map(|i| (i.name.clone(), i.quantity)).collect()
}

#[test]
fn commands_need_the_prefix() {
    assert_eq!(parse_command("/sh add C-Stand x 5"), Some(("add", "C-Stand x 5")));
    assert_eq!(parse_command("/SlateHub list"), Some(("list", "")));
    assert_eq!(parse_command("  /SH remove   C-Stand  "), Some(("remove", "C-Stand")));
    assert_eq!(parse_command("/sh   remove x"), Some(("", "remove x")));
    assert_eq!(parse_command("/sh"), Some(("help", "")));
    assert_eq!(parse_command(" /SLATEHUB "), Some(("help", "")));
    assert_eq!(parse_command("hello slatehub"), None);
    assert_eq!(parse_command("/shx add"), None);
    assert_eq!(parse_command("/sh  add lamp"), Some(("", "add lamp")));
}

#[test]
fn item_quantities() {
    assert_eq!(parse_item_with_quantity("C-Stand x 5"), ("C-Stand".to_string(), 5));
    assert_eq!(parse_item_with_quantity("C-Stand X5"), ("C-Stand".to_string(), 5));
    assert_eq!(parse_item_with_quantity("  ARRI Alexa Mini "), ("ARRI Alexa Mini".to_string(), 1));
    assert_eq!(parse_item_with_quantity("Box x 0"), ("Box x 0".to_string(), 1));
    assert_eq!(
        parse_item_with_quantity("Lamp x 99999999999"),
        ("Lamp x 99999999999".to_string(), 1)
    );
    assert_eq!(parse_item_with_quantity("Light x 1a2"), ("Light".to_string(), 12));
    assert_eq!(parse_item_with_quantity("Box xylophone"), ("Box xylophone".to_string(), 1));
}

#[test]
fn add_then_add_again_merges() {
    let mut list = Vec::new();
    assert_eq!(process_command("add", "C-Stand x 5", &mut list).as_deref(), Some("Added *C-Stand* x 5"));
    assert_eq!(process_command("ADD", "Tripod", &mut list).as_deref(), Some("Added *Tripod*"));
    assert_eq!(
        process_command("add", "c-stand x 2", &mut list).as_deref(),
        Some("Updated *C-Stand* quantity to 7")
    );
    assert_eq!(names(&list), vec![("C-Stand".to_string(), 7), ("Tripod".to_string(), 1)]);
}

#[test]
fn add_saturates_quantity() {
    let mut list = vec![item("Cable", u32::MAX - 1)];
    assert_eq!(
        process_command("add", "cable x 5", &mut list).as_deref(),
        Some("Updated *Cable* quantity to 4294967295")
    );
}

#[test]
fn list_rendering() {
    let mut list = vec![item("ARRI Alexa Mini", 1), item("C-Stand", 10)];
    assert_eq!(
        process_command("list", "", &mut list).as_deref(),
        Some("*Equipment List*\n\n1. ARRI Alexa Mini\n2. C-Stand x 10\n\n_Total: 2 items_")
    );
    let mut empty = Vec::new();
    assert_eq!(
        process_command("ls", "", &mut empty).as_deref(),
        Some("Equipment list is empty.\nUse !add <item> to add equipment.")
    );
}

#[test]
fn remove_update_clear() {
    let mut list = vec![item("Tripod", 2), item("Dolly", 1)];
    assert_eq!(process_command("rm", "tripod", &mut list).as_deref(), Some("Removed *Tripod*"));
    assert_eq!(
        process_command("remove", "Crane", &mut list).as_deref(),
        Some("Item 'Crane' not found in equipment list")
    );
    assert_eq!(
        process_command("set", "DOLLY x 3", &mut list).as_deref(),
        Some("Updated *Dolly* quantity to 3")
    );
    assert_eq!(
        process_command("update", "Crane x 3", &mut list).as_deref(),
        Some("Item 'Crane' not found. Use !add to add new items.")
    );
    assert_eq!(names(&list), vec![("Dolly".to_string(), 3)]);
    assert_eq!(process_command("reset", "", &mut list).as_deref(), Some("Equipment list cleared."));
    assert!(list.is_empty());
}

#[test]
fn usage_help_and_unknown() {
    let mut list = Vec::new();
    assert_eq!(
        process_command("add", "", &mut list).as_deref(),
        Some("Usage: /sh add <item> [x quantity]\nExample: /sh add C-Stand x 5")
    );
    assert_eq!(
        process_command("delete", "", &mut list).as_deref(),
        Some("Usage: /sh remove <item>\nExample: /sh remove C-Stand")
    );
    assert_eq!(
        process_command("update", "", &mut list).as_deref(),
        Some("Usage: /sh update <item> x <quantity>\nExample: /sh update C-Stand x 10")
    );
    let help = process_command("Help", "", &mut list).expect("help is known");
    assert!(help.starts_with("*SlateHub Equipment Bot Commands*\n\n/sh add <item> [x quantity]"));
    assert!(help.ends_with("_You can also use /slatehub instead of /sh_"));
    assert_eq!(process_command("dance", "", &mut list), None);
    assert!(list.is_empty());
}

#[test]
fn names_match_after_unicode_lowercasing() {
    let mut list = vec![item("ÉCRAN", 1)];
    assert_eq!(process_command("rm", "écran", &mut list).as_deref(), Some("Removed *ÉCRAN*"));
}

#[test]
fn first_equal_name() {
    let names = vec!["tripod".to_string(), "dolly".to_string(), "tripod".to_string()];
    assert_eq!(first_equal(&names, &"tripod".to_string()), Some(0));
    assert_eq!(first_equal(&names, &"dolly".to_string()), Some(1));
    assert_eq!(first_equal(&names, &"Dolly".to_string()), None);
    assert_eq!(first_equal(&vec![], &"x".to_string()), None);
}
