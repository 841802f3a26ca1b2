[package]
name = "gloo"
version = "0.1.0"
edition = "2021"
publish = false

[dependencies]
getrandom = { version = "=0.2.17", features = ["js"] }
serde = { version = "=1.0.229", features = ["derive"] }
serde_urlencoded = "=0.7.1"
serde_json = "=1.0.154"
serde-wasm-bindgen = "=0.6.5"
thiserror = "=1.0.69"
wasm-bindgen = "=0.2.130"
wasm-bindgen-futures = "=0.4.80"
js-sys = "=0.3.107"
futures-channel = "=0.3.34"
futures-core = "=0.3.34"
futures-io = "=0.3.34"
futures-sink = "=0.3.34"
pin-project = "=1.1.13"
mime = "=0.3.17"
http = "=1.5.0"
web-sys = { version = "=0.3.107", features = ["Window", "History", "Location", "Url", "UrlSearchParams", "Event", "EventTarget", "AddEventListenerOptions", "EventListenerOptions", "console", "Blob", "BlobPropertyBag", "File", "FilePropertyBag", "FileList", "FileReader", "FileReaderSync", "ProgressEvent", "DomException", "Headers", "Request", "RequestInit", "RequestCache", "RequestCredentials", "RequestMode", "RequestRedirect", "ReferrerPolicy", "Response", "ResponseInit", "ResponseType", "AbortSignal", "FormData", "ReadableStream", "EventSource", "MessageEvent", "WebSocket", "BinaryType", "CloseEvent", "ErrorEvent", "ObserverCallback", "WorkerGlobalScope"] }
