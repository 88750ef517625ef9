/* The upload control: small files ride one post, large ones go up in pieces, and
   each draws its progress row. */
(function () {
    if (window.__inUpload) { return; }
    window.__inUpload = true;
    var LIMIT = 8388608;
    function upBox() { return document.getElementById('in-status'); }
    function upSeq() { window.__inUpSeq = (window.__inUpSeq || 0) + 1; return window.__inUpSeq; }
    /* Rows are found by walking `[data-upload]` and comparing the
       attribute in script. */
    function findRow(box, id) {
        var rows = box.querySelectorAll('[data-upload]');
        for (var i = 0; i < rows.length; i++) {
            if (rows[i].getAttribute('data-upload') == String(id)) { return rows[i]; }
        }
        return null;
    }
    /* The in-flight mirror: progress rows are client-made (`__inAdded`,
       so the live morph keeps them) and mirrored here, so the full-replace
       path — which rebuilds the body on every soft navigation — re-renders
       them from this array on `in:wire` instead of losing sight of the
       upload. Progress ticks only ever write the mirror, then paint the
       live row if it is still connected; a tick landing mid-swap paints
       on the next wire. Full page loads cannot preserve an in-flight bar
       — the completion card still announces on landing. */
    function renderUploads() {
        var box = upBox();
        if (!box) { return; }
        if (!window.__inUploads) { window.__inUploads = []; }
        var seen = {};
        window.__inUploads.forEach(function (u) {
            seen[u.id] = true;
            var row = findRow(box, u.id);
            if (!row) {
                row = document.createElement('div');
                row.className = 'upload-progress-row';
                row.setAttribute('data-upload', String(u.id));
                if (u.name) { row.setAttribute('aria-label', u.name); }
                var name = document.createElement('span');
                name.className = 'upload-progress-name';
                name.textContent = u.name || '';
                var track = document.createElement('div');
                track.className = 'upload-progress';
                var fill = document.createElement('div');
                fill.className = 'upload-progress-fill';
                track.appendChild(fill);
                var pct = document.createElement('span');
                pct.className = 'upload-progress-pct';
                var shut = document.createElement('button');
                shut.type = 'button';
                shut.className = 'upload-progress-cancel';
                shut.textContent = '✕';
                if (u.cancelLabel) { shut.setAttribute('aria-label', u.cancelLabel); }
                shut.addEventListener('click', function () {
                    shut.disabled = true;
                    if (u.cancel) { u.cancel(); }
                });
                row.appendChild(name);
                row.appendChild(track);
                row.appendChild(pct);
                row.appendChild(shut);
                box.appendChild(window.__inAdded(row));
            }
            var text = Math.min(100, Math.round(u.frac * 100)) + '%';
            var fillNow = row.querySelector('.upload-progress-fill');
            var pctNow = row.querySelector('.upload-progress-pct');
            if (fillNow) { fillNow.style.width = text; }
            if (pctNow) { pctNow.textContent = text; }
        });
        box.querySelectorAll('[data-upload]').forEach(function (row) {
            if (!seen[row.getAttribute('data-upload')]) { row.remove(); }
        });
    }
    function bar(label) {
        if (!window.__inUploads) { window.__inUploads = []; }
        var form = document.getElementById('upload-form');
        var cancelLabel = (form && form.getAttribute('data-cancel-label')) || '';
        var u = { id: upSeq(), name: label || '', frac: 0, cancelLabel: cancelLabel };
        /* A cancel landing before the transport arms itself (the
           start round-trip) still counts: the flag below stops the
           loop at the next boundary, and sendBig aborts a session
           minted after the click. */
        u.cancel = function () { u.cancelled = true; };
        window.__inUploads.push(u);
        renderUploads();
        return u;
    }
    function setProgress(u, frac) {
        u.frac = frac;
        var box = upBox();
        var row = box && findRow(box, u.id);
        if (!row) { renderUploads(); return; }
        var text = Math.min(100, Math.round(frac * 100)) + '%';
        var fill = row.querySelector('.upload-progress-fill');
        var pct = row.querySelector('.upload-progress-pct');
        if (fill) { fill.style.width = text; }
        if (pct) { pct.textContent = text; }
    }
    function dropRow(u) {
        if (window.__inUploads) {
            window.__inUploads = window.__inUploads.filter(function (x) { return x.id !== u.id; });
        }
        var box = upBox();
        var row = box && findRow(box, u.id);
        if (row) { row.remove(); }
    }
    document.addEventListener('in:wire', renderUploads);
    renderUploads();
    function notify(kind, message) {
        if (window.__inNotify) { window.__inNotify(kind, message); }
    }
    /* Cancel is not a failure: the rejection below carries a flag the
       submit handler reads, so a deliberate cancel announces the
       canceled card instead of the failed one. */
    function canceledErr() { var e = new Error('canceled'); e.canceled = true; return e; }
    async function startChunked(folder, name, size) {
        var r = await fetch('/api/upload/start', {
            method: 'POST',
            headers: { 'content-type': 'application/json', accept: 'application/json' },
            body: JSON.stringify({ folder_id: folder || null, name: name, size_bytes: size })
        });
        var answer = await r.json();
        if (!answer.ok) { throw new Error(answer.err || 'start'); }
        return answer.ok;
    }
    async function sendBig(file, folder, onProgress, u) {
        var session = await startChunked(folder, file.name, file.size);
        /* The session id lives on the mirror entry, so the row's
           cancel control still reaches the abort endpoint after a
           soft navigation rebuilt the page around it. A cancel that
           landed during the start flight aborts the fresh session
           straight away instead of leaking it. */
        if (u) {
            if (u.cancelled) {
                fetch('/api/upload/' + session.id + '/abort', { method: 'POST' });
                throw canceledErr();
            }
            u.sessionId = session.id;
            u.cancel = function () {
                u.cancelled = true;
                try { u.abortChunk(); } catch (err) {}
                fetch('/api/upload/' + session.id + '/abort', { method: 'POST' });
            };
        }
        var total = Math.max(1, file.size);
        var index = 0;
        var flight = null;
        if (u) {
            u.abortChunk = function () { if (flight) { try { flight.abort(); } catch (err) {} } };
        }
        for (var off = 0; off < file.size; off += LIMIT, index++) {
            if (u && u.cancelled) { throw canceledErr(); }
            var piece = file.slice(off, Math.min(file.size, off + LIMIT));
            flight = new AbortController();
            var r;
            try {
                r = await fetch('/api/upload/' + session.id + '/' + index, {
                    method: 'PUT',
                    headers: { 'content-type': 'application/octet-stream' },
                    body: piece,
                    signal: flight.signal
                });
            } catch (err) {
                if (u && u.cancelled) { throw canceledErr(); }
                throw err;
            }
            if (!r.ok) { throw new Error('chunk'); }
            onProgress((off + piece.size) / total);
        }
        if (u && u.cancelled) { throw canceledErr(); }
        var done = await fetch('/api/upload/' + session.id + '/finish', { method: 'POST' });
        var fin = await done.json();
        if (!fin.ok) { throw new Error((fin.err) || 'finish'); }
        onProgress(1);
    }
    function sendSmall(action, folder, files, onProgress, u) {
        return new Promise(function (resolve, reject) {
            var data = new FormData();
            data.append('folder_id', folder);
            files.forEach(function (f) { data.append('file', f, f.name); });
            var x = new XMLHttpRequest();
            if (u) {
                u.cancel = function () {
                    u.cancelled = true;
                    try { x.abort(); } catch (err) {}
                };
            }
            x.open('POST', action);
            x.setRequestHeader('accept', 'text/html');
            x.upload.onprogress = function (ev) {
                if (ev.lengthComputable && ev.total > 0) { onProgress(ev.loaded / ev.total); }
            };
            x.onload = function () {
                onProgress(1);
                if (x.status >= 200 && x.status < 300) { resolve(x.responseURL || ''); }
                else { reject(new Error('small')); }
            };
            x.onerror = function () { reject(new Error('small')); };
            x.onabort = function () { reject(canceledErr()); };
            x.send(data);
        });
    }
    document.addEventListener('submit', function (e) {
        var form = e.target;
        if (!form || form.id !== 'upload-form') { return; }
        e.preventDefault();
        var input = form.querySelector('.file-upload-input');
        var folder = form.querySelector('input[name=folder_id]').value;
        var files = input && input.files ? Array.prototype.slice.call(input.files) : [];
        if (!files.length) { return; }
        if (form.__inBusy) { return; }
        form.__inBusy = true;
        if (input) { input.disabled = true; window.__inOwn(input, [], ['disabled']); }
        var small = files.filter(function (f) { return f.size < LIMIT; });
        var big = files.filter(function (f) { return f.size >= LIMIT; });
        var failLabel = form.getAttribute('data-failed-label') || 'upload failed';
        var doneLabel = form.getAttribute('data-complete-label') || '';
        var canceledLabel = form.getAttribute('data-canceled-label') || '';
        var landing = window.location.href;
        function settle() {
            input.value = '';
            form.__inBusy = false;
            if (input) { input.disabled = false; }
        }
        (async function () {
            var rows = [];
            try {
                if (small.length) {
                    var title = small.length === 1 ? small[0].name : (small.length + ' files');
                    var ui = bar(title);
                    rows.push(ui);
                    var url = await sendSmall(form.getAttribute('action'), folder, small, function (frac) { setProgress(ui, frac); }, ui);
                    if (url) { landing = url; }
                }
                for (var i = 0; i < big.length; i++) {
                    await (function (file) {
                        var ui2 = bar(file.name);
                        rows.push(ui2);
                        return sendBig(file, folder, function (frac) { setProgress(ui2, frac); }, ui2);
                    })(big[i]);
                }
            } catch (err) {
                rows.forEach(dropRow);
                if (err && err.canceled) {
                    if (canceledLabel) { notify('ok', canceledLabel); }
                } else {
                    var why = err && err.message ? err.message : String(err);
                    notify('error', failLabel + ' (' + why + ')');
                }
                settle();
                return;
            }
            /* A refused upload answers 303 into a refusal banner page, which the XHR follows to a 200: the banner carries the message, so only trumpet success when no refusal rode the redirect. */
            if (doneLabel && !/[?&]refusal=/.test(landing)) { notify('ok', doneLabel); }
            settle();
            if (window.__inGo) { window.__inGo(landing); }
            else { window.location.href = landing; }
        })();
    });
    (function () {
        if (window.__inEditFocus) { return; }
        window.__inEditFocus = true;
        function focusIt() {
            var input = document.querySelector('input[data-edit-focus]');
            if (input && input.focus && input.select) { input.focus(); input.select(); }
        }
        focusIt();
        document.addEventListener('in:wire', focusIt);
    })();
    (function () {
        if (window.__inDrop) { return; }
        window.__inDrop = true;
        var depth = 0;
        function uploadForm() { return document.getElementById('upload-form'); }
        function overlay() { return document.getElementById('drop-overlay'); }
        function hasFiles(e) {
            return !!(e.dataTransfer && e.dataTransfer.types && Array.prototype.indexOf.call(e.dataTransfer.types, 'Files') !== -1);
        }
        function show(on) {
            var ov = overlay();
            if (ov) { ov.classList.toggle('drop-overlay-show', !!on); }
        }
        document.addEventListener('dragenter', function (e) {
            if (!uploadForm() || !hasFiles(e)) { return; }
            e.preventDefault();
            depth++;
            show(true);
        });
        document.addEventListener('dragover', function (e) {
            if (uploadForm() && hasFiles(e)) { e.preventDefault(); }
        });
        document.addEventListener('dragleave', function (e) {
            if (!uploadForm()) { return; }
            depth = Math.max(0, depth - 1);
            if (depth === 0) { show(false); }
        });
        document.addEventListener('drop', function (e) {
            depth = 0;
            show(false);
            var form = uploadForm();
            if (!form || !e.dataTransfer || !e.dataTransfer.files || !e.dataTransfer.files.length) { return; }
            e.preventDefault();
            var input = form.querySelector('.file-upload-input');
            if (!input) { return; }
            input.files = e.dataTransfer.files;
            input.dispatchEvent(new Event('change', { bubbles: true }));
        });
    })();
})();
