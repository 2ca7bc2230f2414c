use escp_layout::{Document, Page, Region, StyleFlags};

#[test]
fn test_document_builder_new() {
    let builder = Document::builder();
    assert_eq!(builder.page_count(), 0);
}

#[test]
fn test_document_builder_add_page() {
    let mut builder = Document::builder();

    let page1 = Page::builder().build();
    let page2 = Page::builder().build();

    builder.add_page(page1);
    builder.add_page(page2);

    assert_eq!(builder.page_count(), 2);
}

#[test]
fn test_document_builder_build() {
    let mut builder = Document::builder();
    let page = Page::builder().build();
    builder.add_page(page);

    let document = builder.build();
    assert_eq!(document.page_count(), 1);
}

#[test]
fn test_document_pages() {
    let mut builder = Document::builder();
    let page = Page::builder().build();
    builder.add_page(page);

    let document = builder.build();
    let pages = document.pages();
    assert_eq!(pages.len(), 1);
}

#[test]
fn test_document_page_count() {
    let mut builder = Document::builder();
    builder.add_page(Page::builder().build());
    builder.add_page(Page::builder().build());
    builder.add_page(Page::builder().build());

    let document = builder.build();
    assert_eq!(document.page_count(), 3);
}

#[test]
fn test_document_empty() {
    let document = Document::builder().build();
    assert_eq!(document.page_count(), 0);
}

#[test]
fn document_test_document_immutability() {
    let mut builder = Document::builder();
    builder.add_page(Page::builder().build());
    let document = builder.build();

    // This test verifies that Document has no public mutable methods
    let _count = document.page_count();
}

#[test]
fn test_multi_page_document_with_different_content() {
    let mut doc_builder = Document::builder();

    // Page 1
    let mut page1_builder = Page::builder();
    page1_builder.write_str(0, 0, "Page 1", StyleFlags::BOLD);
    page1_builder.write_str(0, 2, "First page content", StyleFlags::NONE);
    doc_builder.add_page(page1_builder.build());

    // Page 2
    let mut page2_builder = Page::builder();
    page2_builder.write_str(0, 0, "Page 2", StyleFlags::BOLD);
    page2_builder.write_str(0, 2, "Second page content", StyleFlags::NONE);
    doc_builder.add_page(page2_builder.build());

    // Page 3
    let mut page3_builder = Page::builder();
    page3_builder.write_str(0, 0, "Page 3", StyleFlags::BOLD);
    page3_builder.write_str(0, 2, "Third page content", StyleFlags::NONE);
    doc_builder.add_page(page3_builder.build());

    let document = doc_builder.build();

    // Verify page count
    assert_eq!(document.page_count(), 3);

    // Render to bytes
    let bytes = document.render();

    // Verify output is not empty
    assert!(!bytes.is_empty());

    // Verify initialization sequence
    assert_eq!(bytes[0], 0x1B); // ESC
    assert_eq!(bytes[1], 0x40); // @
    assert_eq!(bytes[2], 0x0F); // SI (condensed mode)

    // Count form-feeds (should be 3, one per page)
    let ff_count = bytes.iter().filter(|&&b| b == 0x0C).count();
    assert_eq!(ff_count, 3, "Should have 3 form-feeds for 3 pages");

    // Verify content appears in order by checking for page markers
    let content = String::from_utf8_lossy(&bytes);
    let page1_idx = content.find("Page 1");
    let page2_idx = content.find("Page 2");
    let page3_idx = content.find("Page 3");

    assert!(page1_idx.is_some(), "Page 1 content should be present");
    assert!(page2_idx.is_some(), "Page 2 content should be present");
    assert!(page3_idx.is_some(), "Page 3 content should be present");

    // Verify ordering
    assert!(
        page1_idx.unwrap() < page2_idx.unwrap(),
        "Page 1 should come before Page 2"
    );
    assert!(
        page2_idx.unwrap() < page3_idx.unwrap(),
        "Page 2 should come before Page 3"
    );
}

#[test]
fn test_multi_page_independent_layouts() {
    let mut doc_builder = Document::builder();

    // Page 1: Full-width content
    let mut page1_builder = Page::builder();
    page1_builder.write_str(0, 0, "Full Width Page", StyleFlags::BOLD);
    doc_builder.add_page(page1_builder.build());

    // Page 2: Header/body layout
    let mut page2_builder = Page::builder();
    page2_builder.write_str(0, 0, "Header Section", StyleFlags::BOLD);
    page2_builder.write_str(0, 10, "Body Section", StyleFlags::NONE);
    doc_builder.add_page(page2_builder.build());

    // Page 3: Left/right columns
    let mut page3_builder = Page::builder();
    page3_builder.write_str(0, 0, "Left Column", StyleFlags::UNDERLINE);
    page3_builder.write_str(80, 0, "Right Column", StyleFlags::UNDERLINE);
    doc_builder.add_page(page3_builder.build());

    let document = doc_builder.build();

    // Verify document properties
    assert_eq!(document.page_count(), 3);

    // Render and verify
    let bytes = document.render();
    let ff_count = bytes.iter().filter(|&&b| b == 0x0C).count();
    assert_eq!(ff_count, 3);
}

#[test]
fn test_identical_pages_produce_identical_sequences() {
    // Create 5 identical pages
    let mut doc_builder = Document::builder();

    for _ in 0..5 {
        let mut page_builder = Page::builder();
        page_builder.write_str(0, 0, "Identical Content", StyleFlags::BOLD);
        page_builder.write_str(0, 1, "Line 2", StyleFlags::NONE);
        page_builder.write_str(0, 2, "Line 3", StyleFlags::UNDERLINE);
        doc_builder.add_page(page_builder.build());
    }

    let document = doc_builder.build();
    let bytes = document.render();

    // Split by form-feed (0x0C)
    let mut page_sequences = Vec::new();
    let mut start = 3; // Skip initialization bytes (ESC @ SI)

    for (i, &byte) in bytes.iter().enumerate().skip(3) {
        if byte == 0x0C {
            page_sequences.push(&bytes[start..i]);
            start = i + 1;
        }
    }

    // Should have 5 page sequences
    assert_eq!(page_sequences.len(), 5, "Should have 5 page sequences");

    // Verify all sequences are identical
    let first_seq = page_sequences[0];
    for (i, seq) in page_sequences.iter().enumerate().skip(1) {
        assert_eq!(
            seq,
            &first_seq,
            "Page {} sequence should match first page",
            i + 1
        );
    }
}

#[test]
fn multi_page_tests_test_document_immutability() {
    // Create document
    let mut doc_builder = Document::builder();
    let page = Page::builder().build();
    doc_builder.add_page(page);

    let document = doc_builder.build();

    // Verify document properties don't change on render
    let page_count = document.page_count();
    let bytes1 = document.render();
    let bytes2 = document.render();

    assert_eq!(
        document.page_count(),
        page_count,
        "Page count should not change"
    );
    assert_eq!(bytes1, bytes2, "Renders should be identical (immutable)");
}

#[test]
fn test_form_feed_count_matches_page_count() {
    for page_count in 1..=10 {
        let mut doc_builder = Document::builder();

        for i in 0..page_count {
            let mut page_builder = Page::builder();
            page_builder.write_str(0, 0, &format!("Page {}", i + 1), StyleFlags::NONE);
            doc_builder.add_page(page_builder.build());
        }

        let document = doc_builder.build();
        let bytes = document.render();

        let ff_count = bytes.iter().filter(|&&b| b == 0x0C).count();
        assert_eq!(
            ff_count, page_count,
            "Form-feed count should match page count ({} pages)",
            page_count
        );
    }
}

#[test]
fn test_page_order_preservation() {
    let mut doc_builder = Document::builder();

    // Add pages in specific order
    for i in 1..=5 {
        let mut page_builder = Page::builder();
        page_builder.write_str(0, 0, &format!("ORDER-{}", i), StyleFlags::NONE);
        doc_builder.add_page(page_builder.build());
    }

    let document = doc_builder.build();
    let bytes = document.render();
    let content = String::from_utf8_lossy(&bytes);

    // Find positions of each marker
    let positions: Vec<_> = (1..=5)
        .map(|i| content.find(&format!("ORDER-{}", i)).unwrap())
        .collect();

    // Verify strict ordering
    for i in 0..4 {
        assert!(
            positions[i] < positions[i + 1],
            "ORDER-{} should come before ORDER-{}",
            i + 1,
            i + 2
        );
    }
}

#[test]
fn test_empty_pages_in_multi_page_document() {
    let mut doc_builder = Document::builder();

    // Mix empty and non-empty pages
    doc_builder.add_page(Page::builder().build()); // Empty

    let mut page2_builder = Page::builder();
    page2_builder.write_str(0, 0, "Content", StyleFlags::NONE);
    doc_builder.add_page(page2_builder.build()); // Non-empty

    doc_builder.add_page(Page::builder().build()); // Empty

    let document = doc_builder.build();
    let bytes = document.render();

    // Should still have 3 form-feeds
    let ff_count = bytes.iter().filter(|&&b| b == 0x0C).count();
    assert_eq!(ff_count, 3);
    assert_eq!(document.page_count(), 3);
}

#[test]
fn test_determinism_across_multi_page_renders() {
    let mut doc_builder = Document::builder();

    for i in 0..3 {
        let mut page_builder = Page::builder();
        page_builder.write_str(0, 0, &format!("Page {}", i + 1), StyleFlags::BOLD);
        page_builder.write_str(0, 1, "Deterministic content", StyleFlags::NONE);
        doc_builder.add_page(page_builder.build());
    }

    let document = doc_builder.build();

    // Render multiple times
    let render1 = document.render();
    let render2 = document.render();
    let render3 = document.render();

    // All renders should be byte-identical
    assert_eq!(render1, render2);
    assert_eq!(render2, render3);
}

#[test]
fn test_single_page_invoice_rendering() {
    // Create page with header text
    let mut page_builder = Page::builder();

    page_builder.write_str(0, 0, "INVOICE #12345", StyleFlags::BOLD);

    // Add separator line manually
    let separator = "-".repeat(80);
    page_builder.write_str(0, 1, &separator, StyleFlags::NONE);

    // Add footer text
    page_builder.write_str(0, 3, "Thank you for your business!", StyleFlags::NONE);

    let page = page_builder.build();

    // Build document
    let mut doc_builder = Document::builder();
    doc_builder.add_page(page);
    let document = doc_builder.build();

    // Render to bytes
    let bytes = document.render();

    // Validate ESC/P structure
    assert!(!bytes.is_empty(), "Output should not be empty");

    // Check initialization sequence
    assert_eq!(bytes[0], 0x1B, "Should start with ESC");
    assert_eq!(bytes[1], 0x40, "Should have @ (reset)");
    assert_eq!(bytes[2], 0x0F, "Should have SI (condensed mode)");

    // Check for form-feed at end
    assert_eq!(*bytes.last().unwrap(), 0x0C, "Should end with form-feed");

    // Check for bold codes
    let has_bold_on = bytes.windows(2).any(|w| *w == [0x1B, 0x45]);
    assert!(has_bold_on, "Should contain bold-on code");

    // Verify byte-for-byte determinism (render twice, compare)
    let bytes2 = document.render();
    assert_eq!(bytes, bytes2, "Renders should be byte-identical");
}

#[test]
fn test_empty_page_rendering() {
    let page = Page::builder().build();
    let mut doc_builder = Document::builder();
    doc_builder.add_page(page);
    let document = doc_builder.build();

    let bytes = document.render();

    // Should have initialization + empty content + form-feed
    assert!(!bytes.is_empty());
    assert_eq!(bytes[0], 0x1B);
    assert_eq!(bytes[1], 0x40);
    assert_eq!(bytes[2], 0x0F);
}

#[test]
fn test_page_with_styles() {
    let mut page_builder = Page::builder();

    page_builder.write_str(0, 0, "Bold", StyleFlags::BOLD);
    page_builder.write_str(0, 1, "Underline", StyleFlags::UNDERLINE);
    page_builder.write_str(0, 2, "Both", StyleFlags::BOLD.with_underline());

    let page = page_builder.build();
    let mut doc_builder = Document::builder();
    doc_builder.add_page(page);
    let document = doc_builder.build();
    let bytes = document.render();

    // Verify style codes are present
    let has_bold = bytes.windows(2).any(|w| *w == [0x1B, 0x45]);
    let has_underline = bytes.windows(3).any(|w| *w == [0x1B, 0x2D, 0x01]);

    assert!(has_bold, "Should have bold codes");
    assert!(has_underline, "Should have underline codes");
}

#[test]
fn test_deterministic_rendering() {
    let mut page_builder = Page::builder();

    page_builder.write_str(0, 0, "Header", StyleFlags::BOLD);
    page_builder.write_str(0, 5, "Body content", StyleFlags::NONE);

    let page = page_builder.build();
    let mut doc_builder = Document::builder();
    doc_builder.add_page(page);
    let document = doc_builder.build();

    // Render 10 times and verify all identical
    let first_render = document.render();

    for _ in 0..9 {
        let render = document.render();
        assert_eq!(first_render, render, "All renders must be identical");
    }
}
