use commit_sense::suggestion::{check_suggestion, extract_json_block};
use commit_sense::CommitSenseError;

#[test]
fn test_extract_json_block_code_fence() {
    let text = r#"
Here's my analysis:

```json
{
  "bump": "minor",
  "next_version": "1.2.0",
  "changelog": "- Added new feature\n- Fixed bug"
}
```

Hope this helps!
"#;

    let json = extract_json_block(text);
    assert!(json.is_some());
    let json = json.unwrap();
    assert!(json.contains("\"bump\": \"minor\""));
    assert!(json.contains("\"next_version\": \"1.2.0\""));
}

#[test]
fn test_extract_json_block_direct() {
    let text = r#"
Based on the commits, I suggest the following version bump:

{
  "bump": "patch",
  "next_version": "1.0.1",
  "changelog": "- Fixed typo in README"
}

Let me know if you need anything else.
"#;

    let json = extract_json_block(text);
    assert!(json.is_some());
    let json = json.unwrap();
    assert!(json.contains("\"bump\": \"patch\""));
    assert!(json.contains("\"next_version\": \"1.0.1\""));
}

#[test]
fn suggestions_need_a_known_bump_and_a_version() {
    assert!(check_suggestion("minor", "1.2.0").is_ok());
    assert!(matches!(check_suggestion("huge", "1.2.0"), Err(CommitSenseError::Api(_))));
    assert!(matches!(check_suggestion("patch", "1.2"), Err(CommitSenseError::Version(_))));
}
